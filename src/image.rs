//! The textual model of images: the kind tag and the `image@epoch_version` reference.
use vstd::prelude::*;

verus! {

/// The class of an image; it decides the privileges of the datasets created for it.
#[derive(Debug, Clone, Copy, PartialEq, Eq, Structural)]
pub enum ImageType {
    App,
    Devbox,
    System,
}

/// A text that does not name an image, kept for the diagnostic.
#[derive(Debug)]
pub struct ParseError {
    pub text: String,
}

/// The canonical name of a kind.
pub open spec fn kind_name(k: ImageType) -> Seq<char> {
    match k {
        ImageType::App => "app"@,
        ImageType::Devbox => "devbox"@,
        ImageType::System => "system"@,
    }
}

/// The kind that a text names, if any.
pub open spec fn kind_of(s: Seq<char>) -> Option<ImageType> {
    if s == "app"@ {
        Some(ImageType::App)
    } else if s == "devbox"@ {
        Some(ImageType::Devbox)
    } else if s == "system"@ {
        Some(ImageType::System)
    } else {
        None
    }
}

/// Whether two strings hold the same characters.
pub fn str_equal(a: &str, b: &str) -> (r: bool)
    ensures
        r == (a@ == b@),
{
    let n = a.unicode_len();
    if n != b.unicode_len() {
        return false;
    }
    let mut i: usize = 0;
    while i < n
        invariant
            n == a@.len(),
            n == b@.len(),
            i <= n,
            a@.subrange(0, i as int) == b@.subrange(0, i as int),
        decreases n - i,
    {
        if a.get_char(i) != b.get_char(i) {
            assert(a@[i as int] == a@.subrange(0, i + 1)[i as int]);
            return false;
        }
        assert(a@.subrange(0, i + 1) =~= a@.subrange(0, i as int).push(a@[i as int]));
        assert(b@.subrange(0, i + 1) =~= b@.subrange(0, i as int).push(b@[i as int]));
        i = i + 1;
    }
    assert(a@ =~= a@.subrange(0, n as int));
    assert(b@ =~= b@.subrange(0, n as int));
    true
}

impl Default for ImageType {
    fn default() -> (r: ImageType)
        ensures
            r == ImageType::App,
    {
        ImageType::App
    }
}

impl ImageType {
    /// Reads a kind from its canonical name; the match is exact.
    pub fn from_str(s: &str) -> (r: Result<ImageType, ParseError>)
        ensures
            match r {
                Ok(k) => kind_of(s@) == Some(k),
                Err(e) => kind_of(s@) is None && e.text@ == s@,
            },
    {
        if str_equal(s, "app") {
            Ok(ImageType::App)
        } else if str_equal(s, "devbox") {
            Ok(ImageType::Devbox)
        } else if str_equal(s, "system") {
            Ok(ImageType::System)
        } else {
            Err(ParseError { text: s.to_owned() })
        }
    }

    /// The canonical name of the kind.
    pub fn as_str(&self) -> (r: &'static str)
        ensures
            r@ == kind_name(*self),
    {
        match self {
            ImageType::App => "app",
            ImageType::Devbox => "devbox",
            ImageType::System => "system",
        }
    }

    /// The canonical name of the kind, as an owned string.
    pub fn to_string(&self) -> (r: String)
        ensures
            r@ == kind_name(*self),
    {
        self.as_str().to_owned()
    }
}

/// Each kind reads back from its canonical name, and only the three canonical
/// names read as a kind.
pub proof fn lemma_kind_round_trip(k: ImageType, s: Seq<char>)
    ensures
        kind_of(kind_name(k)) == Some(k),
        kind_of(s) is Some ==> s == kind_name(kind_of(s)->Some_0),
        kind_of(s) is Some <==> (s == "app"@ || s == "devbox"@ || s == "system"@),
{
    reveal_strlit("app");
    reveal_strlit("devbox");
    reveal_strlit("system");
    assert("app"@.len() == 3 && "devbox"@.len() == 6 && "system"@.len() == 6);
    assert("devbox"@[0] != "system"@[0]);
}

/// A reference to one version of an image: `image@epoch_version`.
#[derive(Debug)]
pub struct ImageRef {
    pub image: String,
    pub epoch: u32,
    pub version: String,
}

impl PartialEq for ImageRef {
    fn eq(&self, other: &ImageRef) -> (r: bool) {
        self.image == other.image && self.epoch == other.epoch && self.version == other.version
    }
}

impl vstd::std_specs::cmp::PartialEqSpecImpl for ImageRef {
    open spec fn obeys_eq_spec() -> bool {
        true
    }

    open spec fn eq_spec(&self, other: &ImageRef) -> bool {
        self.image@ == other.image@ && self.epoch == other.epoch && self.version@ == other.version@
    }
}

/// The characters allowed in an image name and in a version.
pub open spec fn is_name_char(c: char) -> bool {
    ('a' <= c && c <= 'z') || ('A' <= c && c <= 'Z') || ('0' <= c && c <= '9') || c == '.' || c
        == '_'
}

/// A non-empty run of name characters.
pub open spec fn is_name(s: Seq<char>) -> bool {
    s.len() > 0 && forall|x: int| 0 <= x < s.len() ==> is_name_char(#[trigger] s[x])
}

/// An ASCII digit.
pub open spec fn is_digit(c: char) -> bool {
    '0' <= c && c <= '9'
}

/// A non-empty run of ASCII digits.
pub open spec fn is_digits(s: Seq<char>) -> bool {
    s.len() > 0 && forall|x: int| 0 <= x < s.len() ==> is_digit(#[trigger] s[x])
}

/// The value of an ASCII digit.
pub open spec fn digit_value(c: char) -> nat {
    ((c as u32) - ('0' as u32)) as nat
}

/// The number that a run of decimal digits denotes.
pub open spec fn digits_value(s: Seq<char>) -> nat
    decreases s.len(),
{
    if s.len() == 0 {
        0
    } else {
        10 * digits_value(s.drop_last()) + digit_value(s.last())
    }
}

/// The decimal digit for a value below ten.
pub open spec fn digit_char(d: nat) -> char {
    "0123456789"@[d as int]
}

/// The canonical decimal form of a number, without leading zeros.
pub open spec fn decimal(n: nat) -> Seq<char>
    decreases n,
{
    if n < 10 {
        seq![digit_char(n)]
    } else {
        decimal(n / 10).push(digit_char(n % 10))
    }
}

/// `t` is the text `image@digits_version`, each part well formed.
pub open spec fn is_ref_text(t: Seq<char>, image: Seq<char>, digits: Seq<char>, version: Seq<char>) -> bool {
    &&& is_name(image)
    &&& is_digits(digits)
    &&& is_name(version)
    &&& t == image + seq!['@'] + digits + seq!['_'] + version
}

/// `t` is a reference to the given image, epoch and version.
pub open spec fn denotes(t: Seq<char>, image: Seq<char>, epoch: nat, version: Seq<char>) -> bool {
    exists|d: Seq<char>| is_ref_text(t, image, d, version) && digits_value(d) == epoch
}

/// The display form `image@epoch_version`.
pub open spec fn ref_text(image: Seq<char>, epoch: nat, version: Seq<char>) -> Seq<char> {
    image + seq!['@'] + decimal(epoch) + seq!['_'] + version
}

/// The path form `image/epoch_version`.
pub open spec fn ref_path(image: Seq<char>, epoch: nat, version: Seq<char>) -> Seq<char> {
    image + seq!['/'] + decimal(epoch) + seq!['_'] + version
}

/// Where the parts of a reference text stand.
proof fn lemma_ref_text_parts(t: Seq<char>, image: Seq<char>, digits: Seq<char>, version: Seq<char>)
    requires
        is_ref_text(t, image, digits, version),
    ensures
        t.len() == image.len() + digits.len() + version.len() + 2,
        t[image.len() as int] == '@',
        t[(image.len() + 1 + digits.len()) as int] == '_',
        t.subrange(0, image.len() as int) == image,
        t.subrange((image.len() + 1) as int, (image.len() + 1 + digits.len()) as int) == digits,
        t.subrange((image.len() + digits.len() + 2) as int, t.len() as int) == version,
        forall|x: int| 0 <= x < image.len() ==> is_name_char(#[trigger] t[x]),
        forall|x: int| image.len() + 1 <= x < image.len() + 1 + digits.len() ==> is_digit(#[trigger] t[x]),
        forall|x: int| image.len() + digits.len() + 2 <= x < t.len() ==> is_name_char(#[trigger] t[x]),
{
    let a = image.len() as int;
    let b = a + 1 + digits.len();
    assert(t.subrange(0, a) =~= image);
    assert(t.subrange(a + 1, b) =~= digits);
    assert(t.subrange(b + 1, t.len() as int) =~= version);
    assert forall|x: int| 0 <= x < a implies is_name_char(#[trigger] t[x]) by {
        assert(t[x] == t.subrange(0, a)[x]);
    }
    assert forall|x: int| a + 1 <= x < b implies is_digit(#[trigger] t[x]) by {
        assert(t[x] == t.subrange(a + 1, b)[x - a - 1]);
    }
    assert forall|x: int| b + 1 <= x < t.len() implies is_name_char(#[trigger] t[x]) by {
        assert(t[x] == t.subrange(b + 1, t.len() as int)[x - b - 1]);
    }
}

/// A reference text splits into its parts in one way only.
proof fn lemma_ref_text_unique(
    t: Seq<char>,
    i1: Seq<char>,
    d1: Seq<char>,
    v1: Seq<char>,
    i2: Seq<char>,
    d2: Seq<char>,
    v2: Seq<char>,
)
    requires
        is_ref_text(t, i1, d1, v1),
        is_ref_text(t, i2, d2, v2),
    ensures
        i1 == i2,
        d1 == d2,
        v1 == v2,
{
    lemma_ref_text_parts(t, i1, d1, v1);
    lemma_ref_text_parts(t, i2, d2, v2);
    if i1.len() < i2.len() {
        assert(is_name_char(t[i1.len() as int]));
    } else if i2.len() < i1.len() {
        assert(is_name_char(t[i2.len() as int]));
    }
    let a = (i1.len() + 1) as int;
    if d1.len() < d2.len() {
        assert(is_digit(t[a + d1.len() as int]));
    } else if d2.len() < d1.len() {
        assert(is_digit(t[a + d2.len() as int]));
    }
}

proof fn lemma_decimal_digits(n: nat)
    ensures
        is_digits(decimal(n)),
        digits_value(decimal(n)) == n,
    decreases n,
{
    reveal_strlit("0123456789");
    if n >= 10 {
        lemma_decimal_digits(n / 10);
        let s = decimal(n);
        assert(s.drop_last() =~= decimal(n / 10));
        assert forall|x: int| 0 <= x < s.len() implies is_digit(#[trigger] s[x]) by {
            if x < s.len() - 1 {
                assert(s[x] == decimal(n / 10)[x]);
            }
        }
    }
    lemma_digit_char(n % 10);
    let s = decimal(n);
    if n < 10 {
        assert(s.drop_last() =~= Seq::<char>::empty());
        assert(digits_value(s.drop_last()) == 0);
        assert(digits_value(s) == digit_value(s.last()));
    } else {
        assert(s.last() == digit_char(n % 10));
        assert(10 * (n / 10) + n % 10 == n);
        assert(digits_value(s) == 10 * digits_value(decimal(n / 10)) + digit_value(digit_char(n % 10)));
    }
}

proof fn lemma_digit_char(d: nat)
    requires
        d < 10,
    ensures
        is_digit(digit_char(d)),
        digit_value(digit_char(d)) == d,
{
    reveal_strlit("0123456789");
    assert(d == 0 || d == 1 || d == 2 || d == 3 || d == 4 || d == 5 || d == 6 || d == 7 || d == 8
        || d == 9);
}

/// The display form of a well-formed reference reads back as that reference and
/// nothing else; its path form holds no `@`.
pub proof fn lemma_ref_round_trip(image: Seq<char>, epoch: u32, version: Seq<char>)
    requires
        is_name(image),
        is_name(version),
    ensures
        denotes(ref_text(image, epoch as nat, version), image, epoch as nat, version),
        forall|im: Seq<char>, ep: nat, ve: Seq<char>|
            denotes(ref_text(image, epoch as nat, version), im, ep, ve) ==> im == image && ep
                == epoch && ve == version,
        forall|x: int|
            0 <= x < ref_path(image, epoch as nat, version).len() ==> #[trigger] ref_path(
                image,
                epoch as nat,
                version,
            )[x] != '@',
{
    let t = ref_text(image, epoch as nat, version);
    let d = decimal(epoch as nat);
    lemma_decimal_digits(epoch as nat);
    assert(is_ref_text(t, image, d, version));
    assert forall|im: Seq<char>, ep: nat, ve: Seq<char>|
        denotes(t, im, ep, ve) implies im == image && ep == epoch && ve == version by {
        let d2 = choose|d2: Seq<char>| is_ref_text(t, im, d2, ve) && digits_value(d2) == ep;
        lemma_ref_text_unique(t, image, d, version, im, d2, ve);
    }
    let p = ref_path(image, epoch as nat, version);
    assert forall|x: int| 0 <= x < p.len() implies #[trigger] p[x] != '@' by {
        let a = image.len() as int;
        let b = a + 1 + d.len();
        if x < a {
            assert(p[x] == image[x]);
        } else if a < x < b {
            assert(p[x] == d[x - a - 1]);
        } else if x > b {
            assert(p[x] == version[x - b - 1]);
        }
    }
}

/// `t[a..b]` is a maximal run of name characters.
pub open spec fn name_run(t: Seq<char>, a: int, b: int) -> bool {
    &&& 0 <= a <= b <= t.len()
    &&& forall|x: int| a <= x < b ==> is_name_char(#[trigger] t[x])
    &&& b < t.len() ==> !is_name_char(t[b])
}

/// `t[a..b]` is a maximal run of digits.
pub open spec fn digit_run(t: Seq<char>, a: int, b: int) -> bool {
    &&& 0 <= a <= b <= t.len()
    &&& forall|x: int| a <= x < b ==> is_digit(#[trigger] t[x])
    &&& b < t.len() ==> !is_digit(t[b])
}

proof fn lemma_image_end(t: Seq<char>, k: int, im: Seq<char>, d: Seq<char>, ve: Seq<char>)
    requires
        is_ref_text(t, im, d, ve),
        name_run(t, 0, k),
    ensures
        im.len() == k,
{
    lemma_ref_text_parts(t, im, d, ve);
    if k < im.len() {
        assert(is_name_char(t[k]));
    } else if k > im.len() {
        assert(is_name_char(t[im.len() as int]));
    }
}

proof fn lemma_epoch_end(t: Seq<char>, k: int, e: int, im: Seq<char>, d: Seq<char>, ve: Seq<char>)
    requires
        is_ref_text(t, im, d, ve),
        im.len() == k,
        digit_run(t, k + 1, e),
    ensures
        d.len() == e - k - 1,
{
    lemma_ref_text_parts(t, im, d, ve);
    if e < k + 1 + d.len() {
        assert(is_digit(t[e]));
    } else if e > k + 1 + d.len() {
        assert(is_digit(t[k + 1 + d.len()]));
    }
}

proof fn lemma_value_prefix(d: Seq<char>, p: int)
    requires
        0 <= p <= d.len(),
    ensures
        digits_value(d.subrange(0, p)) <= digits_value(d),
    decreases d.len(),
{
    if p < d.len() {
        lemma_value_prefix(d.drop_last(), p);
        assert(d.drop_last().subrange(0, p) =~= d.subrange(0, p));
    } else {
        assert(d.subrange(0, p) =~= d);
    }
}

proof fn lemma_epoch_overflow(t: Seq<char>, k: int, j: int, im: Seq<char>, d: Seq<char>, ve: Seq<char>)
    requires
        is_ref_text(t, im, d, ve),
        im.len() == k,
        k + 1 <= j <= t.len(),
        forall|x: int| k + 1 <= x < j ==> is_digit(#[trigger] t[x]),
        digits_value(t.subrange(k + 1, j)) > u32::MAX,
    ensures
        digits_value(d) > u32::MAX,
{
    lemma_ref_text_parts(t, im, d, ve);
    if j > k + 1 + d.len() {
        assert(is_digit(t[k + 1 + d.len()]));
    }
    assert(t.subrange(k + 1, j) =~= d.subrange(0, j - k - 1));
    lemma_value_prefix(d, j - k - 1);
}

/// Whether `c` may stand in an image name or a version.
fn is_name_char_exec(c: char) -> (r: bool)
    ensures
        r == is_name_char(c),
{
    ('a' <= c && c <= 'z') || ('A' <= c && c <= 'Z') || ('0' <= c && c <= '9') || c == '.' || c
        == '_'
}

/// The end of the run of name characters that starts at `start`.
fn scan_name(s: &str, start: usize, n: usize) -> (end: usize)
    requires
        n == s@.len(),
        start <= n,
    ensures
        name_run(s@, start as int, end as int),
{
    let mut i = start;
    while i < n && is_name_char_exec(s.get_char(i))
        invariant
            n == s@.len(),
            start <= i <= n,
            forall|x: int| start <= x < i ==> is_name_char(#[trigger] s@[x]),
        decreases n - i,
    {
        i = i + 1;
    }
    i
}

/// Reads the run of digits that starts at `start` as a 32-bit number; `None`
/// where a prefix of the run already exceeds 32 bits.
fn scan_epoch(s: &str, start: usize, n: usize) -> (r: Option<(u32, usize)>)
    requires
        n == s@.len(),
        start <= n,
    ensures
        match r {
            Some((v, end)) => digit_run(s@, start as int, end as int) && v == digits_value(
                s@.subrange(start as int, end as int),
            ),
            None => exists|j: int|
                start < j <= n && (forall|x: int| start <= x < j ==> is_digit(#[trigger] s@[x]))
                    && digits_value(s@.subrange(start as int, j)) > u32::MAX,
        },
{
    let mut v: u32 = 0;
    let mut i = start;
    assert(s@.subrange(start as int, start as int) =~= Seq::<char>::empty());
    while i < n && '0' <= s.get_char(i) && s.get_char(i) <= '9'
        invariant
            n == s@.len(),
            start <= i <= n,
            forall|x: int| start <= x < i ==> is_digit(#[trigger] s@[x]),
            v == digits_value(s@.subrange(start as int, i as int)),
        decreases n - i,
    {
        let c = s.get_char(i);
        let w: u64 = v as u64 * 10 + ((c as u32) - ('0' as u32)) as u64;
        let ghost next = s@.subrange(start as int, i + 1);
        assert(next.drop_last() =~= s@.subrange(start as int, i as int));
        assert(next.last() == c);
        if w > u32::MAX as u64 {
            assert(digits_value(next) > u32::MAX);
            return None;
        }
        v = w as u32;
        i = i + 1;
    }
    Some((v, i))
}

impl ImageRef {
    /// The display form `image@epoch_version`.
    pub fn to_string(&self) -> (r: String)
        ensures
            r@ == ref_text(self.image@, self.epoch as nat, self.version@),
    {
        let mut out = String::new();
        out.append(self.image.as_str());
        out.append("@");
        push_decimal(&mut out, self.epoch);
        out.append("_");
        out.append(self.version.as_str());
        proof {
            reveal_strlit("@");
            reveal_strlit("_");
        }
        assert(out@ =~= ref_text(self.image@, self.epoch as nat, self.version@));
        out
    }

    /// The path form `image/epoch_version`, a segment of a dataset path.
    pub fn as_zpath(&self) -> (r: String)
        ensures
            r@ == ref_path(self.image@, self.epoch as nat, self.version@),
    {
        let mut out = String::new();
        out.append(self.image.as_str());
        out.append("/");
        push_decimal(&mut out, self.epoch);
        out.append("_");
        out.append(self.version.as_str());
        proof {
            reveal_strlit("/");
            reveal_strlit("_");
        }
        assert(out@ =~= ref_path(self.image@, self.epoch as nat, self.version@));
        out
    }

    /// Reads `image@epoch_version`. It fails, keeping the text, where the text
    /// is no such reference or its epoch does not fit in 32 bits.
    pub fn from_str(s: &str) -> (r: Result<ImageRef, ParseError>)
        ensures
            match r {
                Ok(x) => denotes(s@, x.image@, x.epoch as nat, x.version@),
                Err(e) => e.text@ == s@ && forall|im: Seq<char>, ep: nat, ve: Seq<char>|
                    denotes(s@, im, ep, ve) ==> ep > u32::MAX,
            },
    {
        let ghost t = s@;
        let n = s.unicode_len();
        let k = scan_name(s, 0, n);
        if k == 0 || k == n || s.get_char(k) != '@' {
            assert forall|im: Seq<char>, ep: nat, ve: Seq<char>|
                denotes(t, im, ep, ve) implies ep > u32::MAX by {
                let d = choose|d: Seq<char>| is_ref_text(t, im, d, ve) && digits_value(d) == ep;
                lemma_ref_text_parts(t, im, d, ve);
                lemma_image_end(t, k as int, im, d, ve);
            }
            return Err(ParseError { text: s.to_owned() });
        }
        let (epoch, e) = match scan_epoch(s, k + 1, n) {
            Some(p) => p,
            None => {
                assert forall|im: Seq<char>, ep: nat, ve: Seq<char>|
                    denotes(t, im, ep, ve) implies ep > u32::MAX by {
                    let d = choose|d: Seq<char>| is_ref_text(t, im, d, ve) && digits_value(d) == ep;
                    lemma_image_end(t, k as int, im, d, ve);
                    let j = choose|j: int|
                        k + 1 < j <= n && (forall|x: int| k + 1 <= x < j ==> is_digit(#[trigger] t[x]))
                            && #[trigger] digits_value(t.subrange(k + 1, j)) > u32::MAX;
                    lemma_epoch_overflow(t, k as int, j, im, d, ve);
                }
                return Err(ParseError { text: s.to_owned() });
            },
        };
        if e == k + 1 || e == n || s.get_char(e) != '_' {
            assert forall|im: Seq<char>, ep: nat, ve: Seq<char>|
                denotes(t, im, ep, ve) implies ep > u32::MAX by {
                let d = choose|d: Seq<char>| is_ref_text(t, im, d, ve) && digits_value(d) == ep;
                lemma_ref_text_parts(t, im, d, ve);
                lemma_image_end(t, k as int, im, d, ve);
                lemma_epoch_end(t, k as int, e as int, im, d, ve);
            }
            return Err(ParseError { text: s.to_owned() });
        }
        let m = scan_name(s, e + 1, n);
        if m == e + 1 || m != n {
            assert forall|im: Seq<char>, ep: nat, ve: Seq<char>|
                denotes(t, im, ep, ve) implies ep > u32::MAX by {
                let d = choose|d: Seq<char>| is_ref_text(t, im, d, ve) && digits_value(d) == ep;
                lemma_ref_text_parts(t, im, d, ve);
                lemma_image_end(t, k as int, im, d, ve);
                lemma_epoch_end(t, k as int, e as int, im, d, ve);
                if m < n {
                    assert(is_name_char(t[m as int]));
                }
            }
            return Err(ParseError { text: s.to_owned() });
        }
        let image = s.substring_char(0, k).to_owned();
        let version = s.substring_char(e + 1, n).to_owned();
        let ghost d = t.subrange(k + 1, e as int);
        assert(t =~= image@ + seq!['@'] + d + seq!['_'] + version@);
        assert(is_ref_text(t, image@, d, version@));
        Ok(ImageRef { image, epoch, version })
    }
}

/// Appends the decimal form of `n`.
fn push_decimal(out: &mut String, n: u32)
    ensures
        final(out)@ == old(out)@ + decimal(n as nat),
    decreases n,
{
    if n >= 10 {
        push_decimal(out, n / 10);
    }
    let d = (n % 10) as usize;
    let digits = "0123456789";
    proof {
        reveal_strlit("0123456789");
    }
    let digit = digits.substring_char(d, d + 1);
    assert(digit@ =~= seq![digit_char(d as nat)]);
    out.append(digit);
    assert(final(out)@ =~= old(out)@ + decimal(n as nat));
}

/// What no reference text holds: an empty image or version, an epoch that is
/// not a run of digits, a missing `@` or `_`; and a valid reference followed by
/// anything that starts with a character outside the name class is no
/// reference at all.
pub proof fn lemma_parse_rejects(
    t: Seq<char>,
    image: Seq<char>,
    digits: Seq<char>,
    version: Seq<char>,
    tail: Seq<char>,
)
    requires
        is_ref_text(t, image, digits, version),
        tail.len() > 0,
        !is_name_char(tail[0]),
    ensures
        image.len() > 0 && version.len() > 0 && is_digits(digits),
        t.contains('@') && t.contains('_'),
        forall|im: Seq<char>, ep: nat, ve: Seq<char>| !denotes(t + tail, im, ep, ve),
{
    lemma_ref_text_parts(t, image, digits, version);
    assert(t[image.len() as int] == '@');
    assert(t[(image.len() + 1 + digits.len()) as int] == '_');
    let u = t + tail;
    let k = image.len() as int;
    let e = k + 1 + digits.len();
    assert forall|im: Seq<char>, ep: nat, ve: Seq<char>| !denotes(u, im, ep, ve) by {
        if denotes(u, im, ep, ve) {
            let d = choose|d: Seq<char>| is_ref_text(u, im, d, ve) && digits_value(d) == ep;
            assert(forall|x: int| 0 <= x < k ==> #[trigger] u[x] == t[x]);
            assert(u[k] == t[k]);
            assert(name_run(u, 0, k));
            lemma_image_end(u, k, im, d, ve);
            assert(forall|x: int| k + 1 <= x < e ==> #[trigger] u[x] == t[x]);
            assert(u[e] == t[e]);
            assert(digit_run(u, k + 1, e));
            lemma_epoch_end(u, k, e, im, d, ve);
            lemma_ref_text_parts(u, im, d, ve);
            assert(u[t.len() as int] == tail[0]);
            assert(is_name_char(u[t.len() as int]));
        }
    }
}

} // verus!
