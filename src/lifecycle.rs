//! The decisions of the image lifecycle: where datasets live, when a parent
//! dataset is created or refused, and which engine steps create, clone and
//! commit an image. The engine itself is driven by the caller, which reports
//! what it observed and carries out the steps in order, stopping at the first
//! failure.
use crate::image::{lemma_kind_round_trip, kind_name, kind_of, ref_path, str_equal, ImageRef, ImageType};
use vstd::prelude::*;

verus! {

/// The user property that pins the kind of an image's datasets.
pub const PROP_KIND: &'static str = "dankbsd.dankup:kind";

/// The user property that marks a dataset as work in progress.
pub const PROP_WIP: &'static str = "dankbsd.dankup:wip";

/// What the engine reports of a dataset path.
#[derive(Debug)]
pub enum Observed {
    Absent,
    Filesystem { mounted: bool, readonly: bool, kind: Option<String>, wip: Option<String> },
    Snapshot { kind: Option<String> },
    /// A volume, a bookmark, or another type of dataset.
    Other,
}

/// The model of an observation.
pub enum Observation {
    Absent,
    Filesystem {
        mounted: bool,
        readonly: bool,
        kind: Option<Seq<char>>,
        wip: Option<Seq<char>>,
    },
    Snapshot { kind: Option<Seq<char>> },
    Other,
}

/// One step for the engine to carry out.
#[derive(Debug)]
pub enum Effect {
    /// Create the parent dataset of an image, tagged with its kind, with strong
    /// checksums, level-9 compression, no access times, exec and extended
    /// attributes on, writable; device nodes and setuid only where `privileged`.
    CreateParent { path: String, kind: ImageType, privileged: bool },
    /// Create a writable filesystem dataset tagged as work in progress.
    CreateWip { path: String },
    /// Clone the snapshot `source` into `path`, tagged as work in progress.
    CloneWip { path: String, source: String },
    /// Mount the dataset.
    Mount { path: String },
    /// Clear the work-in-progress tag and make the dataset read-only, in one step.
    MarkCommitted { path: String },
    /// Take the snapshot of the given full name.
    Snapshot { path: String },
}

/// The model of a step.
pub enum Step {
    CreateParent { path: Seq<char>, kind: ImageType, privileged: bool },
    CreateWip { path: Seq<char> },
    CloneWip { path: Seq<char>, source: Seq<char> },
    Mount { path: Seq<char> },
    MarkCommitted { path: Seq<char> },
    Snapshot { path: Seq<char> },
}

/// Which lifecycle state a commit found instead of a mounted work in progress.
#[derive(Debug, Clone, Copy, PartialEq, Eq, Structural)]
pub enum Violation {
    NotMounted,
    NotWip,
}

/// Why an operation stopped.
#[derive(Debug)]
pub enum OpError {
    /// A stored kind that names no kind.
    Parse { text: String },
    /// The parent dataset holds another kind.
    KindMismatch { path: String, found: ImageType, wanted: ImageType },
    /// A dataset that the operation needs is missing or of the wrong type.
    PrerequisiteNotFound { path: String },
    /// The source snapshot carries no kind.
    MissingMetadata { path: String },
    /// The dataset is not a mounted work in progress.
    StateViolation { path: String, violation: Violation },
    /// The engine or an external command failed.
    Engine { message: String },
}

/// The model of an error.
pub enum Failure {
    Parse { text: Seq<char> },
    KindMismatch { path: Seq<char>, found: ImageType, wanted: ImageType },
    PrerequisiteNotFound { path: Seq<char> },
    MissingMetadata { path: Seq<char> },
    StateViolation { path: Seq<char>, violation: Violation },
    Engine { message: Seq<char> },
}

/// The model of an optional property value.
pub open spec fn opt_view(o: Option<String>) -> Option<Seq<char>> {
    match o {
        Some(s) => Some(s@),
        None => None,
    }
}

impl View for Observed {
    type V = Observation;

    open spec fn view(&self) -> Observation {
        match self {
            Observed::Absent => Observation::Absent,
            Observed::Filesystem { mounted, readonly, kind, wip } => Observation::Filesystem {
                mounted: *mounted,
                readonly: *readonly,
                kind: opt_view(*kind),
                wip: opt_view(*wip),
            },
            Observed::Snapshot { kind } => Observation::Snapshot { kind: opt_view(*kind) },
            Observed::Other => Observation::Other,
        }
    }
}

impl View for Effect {
    type V = Step;

    open spec fn view(&self) -> Step {
        match self {
            Effect::CreateParent { path, kind, privileged } => Step::CreateParent {
                path: path@,
                kind: *kind,
                privileged: *privileged,
            },
            Effect::CreateWip { path } => Step::CreateWip { path: path@ },
            Effect::CloneWip { path, source } => Step::CloneWip { path: path@, source: source@ },
            Effect::Mount { path } => Step::Mount { path: path@ },
            Effect::MarkCommitted { path } => Step::MarkCommitted { path: path@ },
            Effect::Snapshot { path } => Step::Snapshot { path: path@ },
        }
    }
}

impl View for OpError {
    type V = Failure;

    open spec fn view(&self) -> Failure {
        match self {
            OpError::Parse { text } => Failure::Parse { text: text@ },
            OpError::KindMismatch { path, found, wanted } => Failure::KindMismatch {
                path: path@,
                found: *found,
                wanted: *wanted,
            },
            OpError::PrerequisiteNotFound { path } => Failure::PrerequisiteNotFound { path: path@ },
            OpError::MissingMetadata { path } => Failure::MissingMetadata { path: path@ },
            OpError::StateViolation { path, violation } => Failure::StateViolation {
                path: path@,
                violation: *violation,
            },
            OpError::Engine { message } => Failure::Engine { message: message@ },
        }
    }
}

/// The models of a list of steps.
pub open spec fn steps(v: Seq<Effect>) -> Seq<Step> {
    v.map_values(|e: Effect| e@)
}

/// The model of a plan: the steps to carry out, or the error to stop with.
pub open spec fn plan_view(r: Result<Vec<Effect>, OpError>) -> Result<Seq<Step>, Failure> {
    match r {
        Ok(v) => Ok(steps(v@)),
        Err(e) => Err(e@),
    }
}

/// `<pool>/dankup-store/<rest>`.
pub open spec fn store_path(pool: Seq<char>, rest: Seq<char>) -> Seq<char> {
    pool + "/dankup-store/"@ + rest
}

/// The parent dataset of every version of an image.
pub open spec fn parent_path_of(pool: Seq<char>, image: Seq<char>) -> Seq<char> {
    store_path(pool, image)
}

/// The dataset of one version of an image.
pub open spec fn dataset_path_of(pool: Seq<char>, r: ImageRef) -> Seq<char> {
    store_path(pool, ref_path(r.image@, r.epoch as nat, r.version@))
}

/// The committed snapshot of a dataset.
pub open spec fn snapshot_path_of(dataset: Seq<char>) -> Seq<char> {
    dataset + "@S"@
}

/// The parent dataset of `image` in `pool`.
pub fn parent_path(pool: &str, image: &ImageRef) -> (r: String)
    ensures
        r@ == parent_path_of(pool@, image.image@),
{
    let mut out = pool.to_owned();
    out.append("/dankup-store/");
    out.append(image.image.as_str());
    out
}

/// The dataset of `image` in `pool`.
pub fn dataset_path(pool: &str, image: &ImageRef) -> (r: String)
    ensures
        r@ == dataset_path_of(pool@, *image),
{
    let mut out = pool.to_owned();
    out.append("/dankup-store/");
    let seg = image.as_zpath();
    out.append(seg.as_str());
    out
}

/// The committed snapshot of `dataset`.
pub fn snapshot_path(dataset: &str) -> (r: String)
    ensures
        r@ == snapshot_path_of(dataset@),
{
    let mut out = dataset.to_owned();
    out.append("@S");
    out
}

/// What a parent dataset in the observed state calls for, before an image of
/// kind `kind` goes under it: a new parent, nothing, or an error.
pub open spec fn parent_check(path: Seq<char>, kind: ImageType, obs: Observation) -> Result<
    Option<Step>,
    Failure,
> {
    match obs {
        Observation::Absent => Ok(
            Some(Step::CreateParent { path, kind, privileged: kind == ImageType::System }),
        ),
        Observation::Filesystem { kind: stored, .. } => match stored {
            None => Ok(None),
            Some(text) => match kind_of(text) {
                None => Err(Failure::Parse { text }),
                Some(found) => if found == kind {
                    Ok(None)
                } else {
                    Err(Failure::KindMismatch { path, found, wanted: kind })
                },
            },
        },
        _ => Err(Failure::PrerequisiteNotFound { path }),
    }
}

/// The steps `rest`, after the parent step if there is one.
pub open spec fn with_parent(p: Result<Option<Step>, Failure>, rest: Seq<Step>) -> Result<
    Seq<Step>,
    Failure,
> {
    match p {
        Err(f) => Err(f),
        Ok(None) => Ok(rest),
        Ok(Some(step)) => Ok(seq![step] + rest),
    }
}

/// The plan that creates `image` of kind `kind` in `pool`.
pub open spec fn create_plan(pool: Seq<char>, image: ImageRef, kind: ImageType, parent: Observation) -> Result<
    Seq<Step>,
    Failure,
> {
    let target = dataset_path_of(pool, image);
    with_parent(
        parent_check(parent_path_of(pool, image.image@), kind, parent),
        seq![Step::CreateWip { path: target }, Step::Mount { path: target }],
    )
}

/// The kind that a clone source in the observed state passes on, or why it
/// cannot serve as a source.
pub open spec fn source_check(source: Seq<char>, obs: Observation) -> Result<ImageType, Failure> {
    match obs {
        Observation::Snapshot { kind: stored } => match stored {
            Some(text) => match kind_of(text) {
                Some(k) => Ok(k),
                None => Err(Failure::Parse { text }),
            },
            None => Err(Failure::MissingMetadata { path: source }),
        },
        _ => Err(Failure::PrerequisiteNotFound { path: source }),
    }
}

/// The plan that clones the committed snapshot of `from` into `to`, with the
/// kind `kind` that the source carries.
pub open spec fn clone_plan(
    pool: Seq<char>,
    from: ImageRef,
    to: ImageRef,
    kind: ImageType,
    parent: Observation,
) -> Result<Seq<Step>, Failure> {
    let target = dataset_path_of(pool, to);
    let source = snapshot_path_of(dataset_path_of(pool, from));
    with_parent(
        parent_check(parent_path_of(pool, to.image@), kind, parent),
        seq![Step::CloneWip { path: target, source }, Step::Mount { path: target }],
    )
}

/// The plan that commits `image`, whose dataset is in the observed state.
pub open spec fn commit_plan(pool: Seq<char>, image: ImageRef, obs: Observation) -> Result<
    Seq<Step>,
    Failure,
> {
    let path = dataset_path_of(pool, image);
    match obs {
        Observation::Filesystem { mounted, wip, .. } => if !mounted {
            Err(Failure::StateViolation { path, violation: Violation::NotMounted })
        } else if wip != Some("true"@) {
            Err(Failure::StateViolation { path, violation: Violation::NotWip })
        } else {
            Ok(seq![Step::MarkCommitted { path }, Step::Snapshot { path: snapshot_path_of(path) }])
        },
        _ => Err(Failure::PrerequisiteNotFound { path }),
    }
}

/// The model of the answer of a parent check.
pub open spec fn parent_view(r: Result<Option<Effect>, OpError>) -> Result<Option<Step>, Failure> {
    match r {
        Ok(Some(e)) => Ok(Some(e@)),
        Ok(None) => Ok(None),
        Err(e) => Err(e@),
    }
}

/// The model of the answer of a source check.
pub open spec fn kind_view(r: Result<ImageType, OpError>) -> Result<ImageType, Failure> {
    match r {
        Ok(k) => Ok(k),
        Err(e) => Err(e@),
    }
}

/// Reads a stored kind.
fn stored_kind(text: &String) -> (r: Result<ImageType, OpError>)
    ensures
        kind_view(r) == match kind_of(text@) {
            Some(k) => Ok(k),
            None => Err(Failure::Parse { text: text@ }),
        },
{
    match ImageType::from_str(text.as_str()) {
        Ok(k) => Ok(k),
        Err(e) => Err(OpError::Parse { text: e.text }),
    }
}

/// Decides what the parent dataset `path`, in the observed state, calls for
/// before an image of kind `kind` goes under it.
pub fn check_parent(path: String, kind: ImageType, obs: &Observed) -> (r: Result<Option<Effect>, OpError>)
    ensures
        parent_view(r) == parent_check(path@, kind, obs@),
{
    match obs {
        Observed::Absent => {
            let privileged = match kind {
                ImageType::System => true,
                _ => false,
            };
            Ok(Some(Effect::CreateParent { path, kind, privileged }))
        },
        Observed::Filesystem { kind: stored, .. } => match stored {
            None => Ok(None),
            Some(text) => {
                let found = stored_kind(text)?;
                if found == kind {
                    Ok(None)
                } else {
                    Err(OpError::KindMismatch { path, found, wanted: kind })
                }
            },
        },
        _ => Err(OpError::PrerequisiteNotFound { path }),
    }
}

/// A plan that starts with the parent step, if any.
fn start_plan(p: Option<Effect>) -> (r: Vec<Effect>)
    ensures
        steps(r@) == match p {
            Some(e) => seq![e@],
            None => Seq::<Step>::empty(),
        },
{
    let mut v: Vec<Effect> = Vec::new();
    match p {
        Some(e) => v.push(e),
        None => {},
    }
    assert(steps(v@) =~= match p {
        Some(e) => seq![e@],
        None => Seq::<Step>::empty(),
    });
    v
}

/// The steps that create `image` of kind `kind` in `pool`, given what the
/// engine reports of the image's parent dataset.
pub fn plan_create(pool: &str, image: &ImageRef, kind: ImageType, parent: &Observed) -> (r: Result<
    Vec<Effect>,
    OpError,
>)
    ensures
        plan_view(r) == create_plan(pool@, *image, kind, parent@),
{
    let target = dataset_path(pool, image);
    let p = check_parent(parent_path(pool, image), kind, parent)?;
    let mut v = start_plan(p);
    let ghost first = steps(v@);
    v.push(Effect::CreateWip { path: target.clone() });
    v.push(Effect::Mount { path: target });
    assert(steps(v@) =~= first + seq![
        Step::CreateWip { path: dataset_path_of(pool@, *image) },
        Step::Mount { path: dataset_path_of(pool@, *image) },
    ]);
    Ok(v)
}

/// The kind that the clone source `source` passes on, given what the engine
/// reports of it.
pub fn check_source(source: String, obs: &Observed) -> (r: Result<ImageType, OpError>)
    ensures
        kind_view(r) == source_check(source@, obs@),
{
    match obs {
        Observed::Snapshot { kind: stored } => match stored {
            Some(text) => stored_kind(text),
            None => Err(OpError::MissingMetadata { path: source }),
        },
        _ => Err(OpError::PrerequisiteNotFound { path: source }),
    }
}

/// The steps that clone the committed snapshot of `from` into `to`, given the
/// kind that the source carries and what the engine reports of the parent
/// dataset of `to`.
pub fn plan_clone(
    pool: &str,
    from: &ImageRef,
    to: &ImageRef,
    kind: ImageType,
    parent: &Observed,
) -> (r: Result<Vec<Effect>, OpError>)
    ensures
        plan_view(r) == clone_plan(pool@, *from, *to, kind, parent@),
{
    let target = dataset_path(pool, to);
    let source = snapshot_path(dataset_path(pool, from).as_str());
    let p = check_parent(parent_path(pool, to), kind, parent)?;
    let mut v = start_plan(p);
    let ghost first = steps(v@);
    v.push(Effect::CloneWip { path: target.clone(), source });
    v.push(Effect::Mount { path: target });
    assert(steps(v@) =~= first + seq![
        Step::CloneWip {
            path: dataset_path_of(pool@, *to),
            source: snapshot_path_of(dataset_path_of(pool@, *from)),
        },
        Step::Mount { path: dataset_path_of(pool@, *to) },
    ]);
    Ok(v)
}

/// The steps that commit `image`, given what the engine reports of its dataset.
pub fn plan_commit(pool: &str, image: &ImageRef, obs: &Observed) -> (r: Result<Vec<Effect>, OpError>)
    ensures
        plan_view(r) == commit_plan(pool@, *image, obs@),
{
    let path = dataset_path(pool, image);
    match obs {
        Observed::Filesystem { mounted, wip, .. } => {
            if !*mounted {
                return Err(OpError::StateViolation { path, violation: Violation::NotMounted });
            }
            let is_wip = match wip {
                Some(w) => str_equal(w.as_str(), "true"),
                None => false,
            };
            if !is_wip {
                return Err(OpError::StateViolation { path, violation: Violation::NotWip });
            }
            let snap = snapshot_path(path.as_str());
            let mut v: Vec<Effect> = Vec::new();
            v.push(Effect::MarkCommitted { path });
            v.push(Effect::Snapshot { path: snap });
            assert(steps(v@) =~= seq![
                Step::MarkCommitted { path: dataset_path_of(pool@, *image) },
                Step::Snapshot { path: snapshot_path_of(dataset_path_of(pool@, *image)) },
            ]);
            Ok(v)
        },
        _ => Err(OpError::PrerequisiteNotFound { path }),
    }
}

/// The pool of the root filesystem, from its filesystem type and the source it
/// is mounted from: the source's text before its first `/`, where the root is
/// on ZFS and the source holds a `/`.
pub fn root_pool(fs_type: &str, mounted_from: &str) -> (r: Option<String>)
    ensures
        match r {
            Some(p) => fs_type@ == "zfs"@ && p@.len() < mounted_from@.len() && mounted_from@[p@.len() as int]
                == '/' && p@ == mounted_from@.subrange(0, p@.len() as int) && forall|j: int|
                0 <= j < p@.len() ==> p@[j] != '/',
            None => fs_type@ != "zfs"@ || forall|j: int|
                0 <= j < mounted_from@.len() ==> mounted_from@[j] != '/',
        },
{
    if !str_equal(fs_type, "zfs") {
        return None;
    }
    let n = mounted_from.unicode_len();
    let mut i: usize = 0;
    while i < n
        invariant
            fs_type@ == "zfs"@,
            n == mounted_from@.len(),
            i <= n,
            forall|j: int| 0 <= j < i ==> mounted_from@[j] != '/',
        decreases n - i,
    {
        if mounted_from.get_char(i) == '/' {
            let p = mounted_from.substring_char(0, i).to_owned();
            assert forall|j: int| 0 <= j < p@.len() implies p@[j] != '/' by {
                assert(p@[j] == mounted_from@[j]);
            }
            return Some(p);
        }
        i = i + 1;
    }
    None
}

/// What the engine reports of a parent dataset made by a `CreateParent` step for
/// `kind`: a filesystem tagged with the kind's name and not as work in progress.
pub open spec fn created_parent(kind: ImageType, mounted: bool, readonly: bool) -> Observation {
    Observation::Filesystem { mounted, readonly, kind: Some(kind_name(kind)), wip: None }
}

/// What the engine reports of a dataset after its `MarkCommitted` step.
pub open spec fn committed(kind: Option<Seq<char>>, mounted: bool) -> Observation {
    Observation::Filesystem { mounted, readonly: true, kind, wip: Some("false"@) }
}

/// Checking a parent is idempotent. A parent that exists never calls for a
/// step, so the dataset stays as it was and a second check gives the same
/// answer. A parent made for a kind then passes every check for that kind and
/// fails every check for another kind with a kind mismatch.
pub proof fn lemma_parent_check_idempotent(
    path: Seq<char>,
    kind: ImageType,
    other: ImageType,
    obs: Observation,
    mounted: bool,
    readonly: bool,
)
    requires
        other != kind,
    ensures
        !(obs is Absent) && parent_check(path, kind, obs) is Ok ==> parent_check(path, kind, obs)
            == Ok::<Option<Step>, Failure>(None),
        obs is Absent ==> parent_check(path, kind, obs) == Ok::<Option<Step>, Failure>(
            Some(Step::CreateParent { path, kind, privileged: kind == ImageType::System }),
        ),
        parent_check(path, kind, created_parent(kind, mounted, readonly)) == Ok::<Option<Step>, Failure>(None),
        parent_check(path, other, created_parent(kind, mounted, readonly)) == Err::<
            Option<Step>,
            Failure,
        >(Failure::KindMismatch { path, found: kind, wanted: other }),
{
    lemma_kind_round_trip(kind, kind_name(kind));
}

/// A mounted work in progress commits once, marking it committed and taking its
/// snapshot; once committed, a second commit fails with a state violation.
pub proof fn lemma_commit_once(
    pool: Seq<char>,
    image: ImageRef,
    kind: Option<Seq<char>>,
    readonly: bool,
    still_mounted: bool,
)
    ensures
        commit_plan(
            pool,
            image,
            Observation::Filesystem { mounted: true, readonly, kind, wip: Some("true"@) },
        ) == Ok::<Seq<Step>, Failure>(
            seq![
                Step::MarkCommitted { path: dataset_path_of(pool, image) },
                Step::Snapshot { path: snapshot_path_of(dataset_path_of(pool, image)) },
            ],
        ),
        commit_plan(pool, image, committed(kind, still_mounted)) == Err::<Seq<Step>, Failure>(
            Failure::StateViolation {
                path: dataset_path_of(pool, image),
                violation: if still_mounted {
                    Violation::NotWip
                } else {
                    Violation::NotMounted
                },
            },
        ),
{
    reveal_strlit("true");
    reveal_strlit("false");
    assert("true"@.len() != "false"@.len());
}

/// A clone needs the committed snapshot of its source: with none it fails with
/// a missing prerequisite; the snapshot passes on the kind it carries, and the
/// clone then goes ahead under a parent that is absent or holds that kind.
pub proof fn lemma_clone_needs_snapshot(
    pool: Seq<char>,
    from: ImageRef,
    to: ImageRef,
    kind: ImageType,
    mounted: bool,
    readonly: bool,
)
    ensures
        source_check(snapshot_path_of(dataset_path_of(pool, from)), Observation::Absent) == Err::<
            ImageType,
            Failure,
        >(Failure::PrerequisiteNotFound { path: snapshot_path_of(dataset_path_of(pool, from)) }),
        source_check(
            snapshot_path_of(dataset_path_of(pool, from)),
            Observation::Snapshot { kind: Some(kind_name(kind)) },
        ) == Ok::<ImageType, Failure>(kind),
        clone_plan(pool, from, to, kind, created_parent(kind, mounted, readonly)) == Ok::<
            Seq<Step>,
            Failure,
        >(
            seq![
                Step::CloneWip {
                    path: dataset_path_of(pool, to),
                    source: snapshot_path_of(dataset_path_of(pool, from)),
                },
                Step::Mount { path: dataset_path_of(pool, to) },
            ],
        ),
        clone_plan(pool, from, to, kind, Observation::Absent) is Ok,
{
    lemma_kind_round_trip(kind, kind_name(kind));
}

/// A clone whose target parent exists with another kind fails with a kind
/// mismatch, whatever else holds of that parent and of the target.
pub proof fn lemma_clone_kind_mismatch(
    pool: Seq<char>,
    from: ImageRef,
    to: ImageRef,
    kind: ImageType,
    other: ImageType,
    mounted: bool,
    readonly: bool,
    wip: Option<Seq<char>>,
)
    requires
        kind != other,
    ensures
        clone_plan(
            pool,
            from,
            to,
            kind,
            Observation::Filesystem { mounted, readonly, kind: Some(kind_name(other)), wip },
        ) == Err::<Seq<Step>, Failure>(
            Failure::KindMismatch { path: parent_path_of(pool, to.image@), found: other, wanted: kind },
        ),
{
    lemma_kind_round_trip(other, kind_name(other));
}

} // verus!
