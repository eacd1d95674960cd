use dankup::image::{ImageRef, ImageType};
use dankup::lifecycle::{
    check_parent, check_source, dataset_path, parent_path, plan_clone, plan_commit, plan_create, root_pool,
    snapshot_path, Effect, Observed, OpError, Violation,
};

fn r(text: &str) -> ImageRef {
    ImageRef::from_str(text).unwrap()
}

fn fs(mounted: bool, kind: Option<&str>, wip: Option<&str>) -> Observed {
    Observed::Filesystem {
        mounted,
        readonly: false,
        kind: kind.map(|k| k.to_string()),
        wip: wip.map(|w| w.to_string()),
    }
}

/// A dataset as the in-memory engine below keeps it.
#[derive(Clone)]
enum Entry {
    Fs { mounted: bool, readonly: bool, kind: Option<String>, wip: Option<String> },
    Snap { kind: Option<String> },
}

/// An in-memory engine: kinds inherit from the parent path, snapshots copy
/// the properties of their dataset.
struct Engine {
    sets: Vec<(String, Entry)>,
}

impl Engine {
    fn new() -> Engine {
        Engine { sets: Vec::new() }
    }

    fn get(&self, path: &str) -> Option<&Entry> {
        self.sets.iter().find(|(p, _)| p == path).map(|(_, e)| e)
    }

    fn get_mut(&mut self, path: &str) -> Option<&mut Entry> {
        self.sets.iter_mut().find(|(p, _)| p == path).map(|(_, e)| e)
    }

    fn observe(&self, path: &str) -> Observed {
        match self.get(path) {
            None => Observed::Absent,
            Some(Entry::Fs { mounted, readonly, kind, wip }) => Observed::Filesystem {
                mounted: *mounted,
                readonly: *readonly,
                kind: kind.clone(),
                wip: wip.clone(),
            },
            Some(Entry::Snap { kind }) => Observed::Snapshot { kind: kind.clone() },
        }
    }

    fn inherited_kind(&self, path: &str) -> Option<String> {
        let parent = &path[..path.rfind('/').unwrap()];
        match self.get(parent) {
            Some(Entry::Fs { kind, .. }) => kind.clone(),
            _ => None,
        }
    }

    fn add(&mut self, path: &str, e: Entry) -> Result<(), OpError> {
        if self.get(path).is_some() {
            return Err(OpError::Engine { message: format!("{} exists", path) });
        }
        self.sets.push((path.to_string(), e));
        Ok(())
    }

    fn apply(&mut self, e: &Effect) -> Result<(), OpError> {
        match e {
            Effect::CreateParent { path, kind, .. } => self.add(
                path,
                Entry::Fs { mounted: false, readonly: false, kind: Some(kind.to_string()), wip: None },
            ),
            Effect::CreateWip { path } => {
                let kind = self.inherited_kind(path);
                self.add(path, Entry::Fs { mounted: false, readonly: false, kind, wip: Some("true".to_string()) })
            }
            Effect::CloneWip { path, source } => {
                if self.get(source).is_none() {
                    return Err(OpError::Engine { message: format!("{} missing", source) });
                }
                let kind = self.inherited_kind(path);
                self.add(path, Entry::Fs { mounted: false, readonly: false, kind, wip: Some("true".to_string()) })
            }
            Effect::Mount { path } => match self.get_mut(path) {
                Some(Entry::Fs { mounted, .. }) => {
                    *mounted = true;
                    Ok(())
                }
                _ => Err(OpError::Engine { message: format!("cannot mount {}", path) }),
            },
            Effect::MarkCommitted { path } => match self.get_mut(path) {
                Some(Entry::Fs { readonly, wip, .. }) => {
                    *readonly = true;
                    *wip = Some("false".to_string());
                    Ok(())
                }
                _ => Err(OpError::Engine { message: format!("cannot set {}", path) }),
            },
            Effect::Snapshot { path } => {
                let dataset = &path[..path.find('@').unwrap()];
                match self.get(dataset) {
                    Some(Entry::Fs { kind, .. }) => {
                        let kind = kind.clone();
                        self.add(path, Entry::Snap { kind })
                    }
                    _ => Err(OpError::Engine { message: format!("cannot snapshot {}", path) }),
                }
            }
        }
    }

    fn run(&mut self, plan: Vec<Effect>) -> Result<(), OpError> {
        for e in plan.iter() {
            self.apply(e)?;
        }
        Ok(())
    }

    fn create(&mut self, pool: &str, image: &ImageRef, kind: ImageType) -> Result<String, OpError> {
        let parent = self.observe(&parent_path(pool, image));
        let plan = plan_create(pool, image, kind, &parent)?;
        self.run(plan)?;
        Ok(dataset_path(pool, image))
    }

    fn clone_image(&mut self, pool: &str, from: &ImageRef, to: &ImageRef) -> Result<String, OpError> {
        let source = snapshot_path(&dataset_path(pool, from));
        let kind = check_source(source.clone(), &self.observe(&source))?;
        let parent = self.observe(&parent_path(pool, to));
        let plan = plan_clone(pool, from, to, kind, &parent)?;
        self.run(plan)?;
        Ok(dataset_path(pool, to))
    }

    fn commit(&mut self, pool: &str, image: &ImageRef) -> Result<(), OpError> {
        let obs = self.observe(&dataset_path(pool, image));
        let plan = plan_commit(pool, image, &obs)?;
        self.run(plan)
    }
}

#[test]
fn paths_follow_the_store_layout() {
    let x = r("myapp@0_v1");
    assert_eq!(parent_path("pool", &x), "pool/dankup-store/myapp");
    assert_eq!(dataset_path("pool", &x), "pool/dankup-store/myapp/0_v1");
    assert_eq!(snapshot_path("pool/dankup-store/myapp/0_v1"), "pool/dankup-store/myapp/0_v1@S");
}

#[test]
fn check_parent_creates_missing_parent() {
    match check_parent("p/dankup-store/a".to_string(), ImageType::App, &Observed::Absent) {
        Ok(Some(Effect::CreateParent { path, kind, privileged })) => {
            assert_eq!(path, "p/dankup-store/a");
            assert_eq!(kind, ImageType::App);
            assert!(!privileged);
        }
        other => panic!("unexpected {:?}", other),
    }
    match check_parent("p/dankup-store/s".to_string(), ImageType::System, &Observed::Absent) {
        Ok(Some(Effect::CreateParent { privileged, .. })) => assert!(privileged),
        other => panic!("unexpected {:?}", other),
    }
}

#[test]
fn check_parent_is_idempotent() {
    let existing = fs(false, Some("app"), None);
    for _ in 0..2 {
        assert!(matches!(check_parent("p/x".to_string(), ImageType::App, &existing), Ok(None)));
    }
    for _ in 0..2 {
        match check_parent("p/x".to_string(), ImageType::Devbox, &existing) {
            Err(OpError::KindMismatch { path, found, wanted }) => {
                assert_eq!(path, "p/x");
                assert_eq!(found, ImageType::App);
                assert_eq!(wanted, ImageType::Devbox);
            }
            other => panic!("unexpected {:?}", other),
        }
    }
    assert!(matches!(check_parent("p/x".to_string(), ImageType::System, &fs(true, None, None)), Ok(None)));
}

#[test]
fn check_parent_refuses_odd_parents() {
    assert!(matches!(
        check_parent("p/x".to_string(), ImageType::App, &Observed::Snapshot { kind: None }),
        Err(OpError::PrerequisiteNotFound { .. })
    ));
    assert!(matches!(
        check_parent("p/x".to_string(), ImageType::App, &Observed::Other),
        Err(OpError::PrerequisiteNotFound { .. })
    ));
    match check_parent("p/x".to_string(), ImageType::App, &fs(false, Some("weird"), None)) {
        Err(OpError::Parse { text }) => assert_eq!(text, "weird"),
        other => panic!("unexpected {:?}", other),
    }
}

#[test]
fn ensure_parent_on_engine_twice() {
    let mut eng = Engine::new();
    let a = r("myapp@0_v1");
    let parent = parent_path("pool", &a);
    for _ in 0..2 {
        let p = check_parent(parent.clone(), ImageType::App, &eng.observe(&parent)).unwrap();
        if let Some(e) = p {
            eng.apply(&e).unwrap();
        }
    }
    assert_eq!(eng.sets.len(), 1);
    for _ in 0..2 {
        assert!(matches!(
            check_parent(parent.clone(), ImageType::System, &eng.observe(&parent)),
            Err(OpError::KindMismatch { .. })
        ));
    }
}

#[test]
fn create_on_fresh_pool() {
    let mut eng = Engine::new();
    let path = eng.create("pool", &r("myapp@0_v1"), ImageType::App).unwrap();
    assert_eq!(path, "pool/dankup-store/myapp/0_v1");
    match eng.get("pool/dankup-store/myapp/0_v1") {
        Some(Entry::Fs { mounted, wip, .. }) => {
            assert!(*mounted);
            assert_eq!(wip.as_deref(), Some("true"));
        }
        _ => panic!("dataset missing"),
    }
    match eng.get("pool/dankup-store/myapp") {
        Some(Entry::Fs { kind, .. }) => assert_eq!(kind.as_deref(), Some("app")),
        _ => panic!("parent missing"),
    }
}

#[test]
fn create_plan_steps() {
    let plan = plan_create("pool", &r("myapp@0_v1"), ImageType::App, &Observed::Absent).unwrap();
    assert_eq!(plan.len(), 3);
    assert!(matches!(&plan[0], Effect::CreateParent { path, kind: ImageType::App, privileged: false } if path == "pool/dankup-store/myapp"));
    assert!(matches!(&plan[1], Effect::CreateWip { path } if path == "pool/dankup-store/myapp/0_v1"));
    assert!(matches!(&plan[2], Effect::Mount { path } if path == "pool/dankup-store/myapp/0_v1"));
    let plan = plan_create("pool", &r("myapp@1_v2"), ImageType::App, &fs(true, Some("app"), None)).unwrap();
    assert_eq!(plan.len(), 2);
}

#[test]
fn create_twice_fails_in_engine() {
    let mut eng = Engine::new();
    eng.create("pool", &r("myapp@0_v1"), ImageType::App).unwrap();
    assert!(matches!(eng.create("pool", &r("myapp@0_v1"), ImageType::App), Err(OpError::Engine { .. })));
    assert!(matches!(
        eng.create("pool", &r("myapp@0_v2"), ImageType::System),
        Err(OpError::KindMismatch { .. })
    ));
}

#[test]
fn commit_once_then_state_violation() {
    let mut eng = Engine::new();
    let a = r("myapp@0_v1");
    eng.create("pool", &a, ImageType::App).unwrap();
    eng.commit("pool", &a).unwrap();
    match eng.get("pool/dankup-store/myapp/0_v1") {
        Some(Entry::Fs { readonly, wip, .. }) => {
            assert!(*readonly);
            assert_eq!(wip.as_deref(), Some("false"));
        }
        _ => panic!("dataset missing"),
    }
    assert!(eng.get("pool/dankup-store/myapp/0_v1@S").is_some());
    match eng.commit("pool", &a) {
        Err(OpError::StateViolation { path, violation }) => {
            assert_eq!(path, "pool/dankup-store/myapp/0_v1");
            assert_eq!(violation, Violation::NotWip);
        }
        other => panic!("unexpected {:?}", other),
    }
}

#[test]
fn commit_plan_checks_state() {
    let a = r("myapp@0_v1");
    let plan = plan_commit("pool", &a, &fs(true, Some("app"), Some("true"))).unwrap();
    assert_eq!(plan.len(), 2);
    assert!(matches!(&plan[0], Effect::MarkCommitted { path } if path == "pool/dankup-store/myapp/0_v1"));
    assert!(matches!(&plan[1], Effect::Snapshot { path } if path == "pool/dankup-store/myapp/0_v1@S"));
    assert!(matches!(
        plan_commit("pool", &a, &fs(false, None, Some("true"))),
        Err(OpError::StateViolation { violation: Violation::NotMounted, .. })
    ));
    assert!(matches!(
        plan_commit("pool", &a, &fs(true, None, None)),
        Err(OpError::StateViolation { violation: Violation::NotWip, .. })
    ));
    assert!(matches!(
        plan_commit("pool", &a, &fs(true, None, Some("TRUE"))),
        Err(OpError::StateViolation { violation: Violation::NotWip, .. })
    ));
    assert!(matches!(plan_commit("pool", &a, &Observed::Absent), Err(OpError::PrerequisiteNotFound { .. })));
    assert!(matches!(
        plan_commit("pool", &a, &Observed::Snapshot { kind: None }),
        Err(OpError::PrerequisiteNotFound { .. })
    ));
}

#[test]
fn clone_needs_commit() {
    let mut eng = Engine::new();
    let a = r("myapp@0_v1");
    let b = r("myapp@1_v2");
    eng.create("pool", &a, ImageType::App).unwrap();
    match eng.clone_image("pool", &a, &b) {
        Err(OpError::PrerequisiteNotFound { path }) => assert_eq!(path, "pool/dankup-store/myapp/0_v1@S"),
        other => panic!("unexpected {:?}", other),
    }
    eng.commit("pool", &a).unwrap();
    let path = eng.clone_image("pool", &a, &b).unwrap();
    assert_eq!(path, "pool/dankup-store/myapp/1_v2");
    match eng.get("pool/dankup-store/myapp/1_v2") {
        Some(Entry::Fs { mounted, kind, wip, .. }) => {
            assert!(*mounted);
            assert_eq!(kind.as_deref(), Some("app"));
            assert_eq!(wip.as_deref(), Some("true"));
        }
        _ => panic!("clone missing"),
    }
}

#[test]
fn clone_into_other_image_inherits_kind() {
    let mut eng = Engine::new();
    let a = r("base@0_v1");
    eng.create("pool", &a, ImageType::System).unwrap();
    eng.commit("pool", &a).unwrap();
    eng.clone_image("pool", &a, &r("derived@0_v1")).unwrap();
    match eng.get("pool/dankup-store/derived") {
        Some(Entry::Fs { kind, .. }) => assert_eq!(kind.as_deref(), Some("system")),
        _ => panic!("parent missing"),
    }
}

#[test]
fn clone_into_parent_of_other_kind_fails() {
    let mut eng = Engine::new();
    let a = r("myapp@0_v1");
    eng.create("pool", &a, ImageType::App).unwrap();
    eng.commit("pool", &a).unwrap();
    eng.create("pool", &r("other@0_v1"), ImageType::Devbox).unwrap();
    match eng.clone_image("pool", &a, &r("other@1_v1")) {
        Err(OpError::KindMismatch { path, found, wanted }) => {
            assert_eq!(path, "pool/dankup-store/other");
            assert_eq!(found, ImageType::Devbox);
            assert_eq!(wanted, ImageType::App);
        }
        other => panic!("unexpected {:?}", other),
    }
    assert!(eng.get("pool/dankup-store/other/1_v1").is_none());
}

#[test]
fn check_source_requirements() {
    let src = "p/dankup-store/a/0_v@S".to_string();
    assert!(matches!(check_source(src.clone(), &Observed::Absent), Err(OpError::PrerequisiteNotFound { .. })));
    assert!(matches!(check_source(src.clone(), &fs(true, Some("app"), None)), Err(OpError::PrerequisiteNotFound { .. })));
    match check_source(src.clone(), &Observed::Snapshot { kind: None }) {
        Err(OpError::MissingMetadata { path }) => assert_eq!(path, src),
        other => panic!("unexpected {:?}", other),
    }
    assert!(matches!(
        check_source(src.clone(), &Observed::Snapshot { kind: Some("bogus".to_string()) }),
        Err(OpError::Parse { .. })
    ));
    assert_eq!(
        check_source(src, &Observed::Snapshot { kind: Some("devbox".to_string()) }).unwrap(),
        ImageType::Devbox
    );
}

#[test]
fn clone_plan_steps() {
    let plan = plan_clone("pool", &r("a@0_v1"), &r("b@2_x"), ImageType::Devbox, &Observed::Absent).unwrap();
    assert_eq!(plan.len(), 3);
    assert!(matches!(&plan[0], Effect::CreateParent { path, kind: ImageType::Devbox, privileged: false } if path == "pool/dankup-store/b"));
    assert!(matches!(&plan[1], Effect::CloneWip { path, source } if path == "pool/dankup-store/b/2_x" && source == "pool/dankup-store/a/0_v1@S"));
    assert!(matches!(&plan[2], Effect::Mount { path } if path == "pool/dankup-store/b/2_x"));
}

#[test]
fn root_pool_from_mount_source() {
    assert_eq!(root_pool("zfs", "zroot/ROOT/default").as_deref(), Some("zroot"));
    assert_eq!(root_pool("zfs", "tank/").as_deref(), Some("tank"));
    assert_eq!(root_pool("zfs", "/weird").as_deref(), Some(""));
    assert_eq!(root_pool("zfs", "zroot"), None);
    assert_eq!(root_pool("ufs", "/dev/ada0p2"), None);
    assert_eq!(root_pool("ZFS", "zroot/ROOT"), None);
}
