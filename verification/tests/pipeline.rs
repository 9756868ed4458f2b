//! A whole run simulated in memory: enumeration and filesystem state are
//! plain values here, and the library makes every decision.

use photosort::paths::filter_by_suffix;
use photosort::relocate::{entry_for, plan_relocation, target_path, RelocateDecision};
use photosort::resolver::{should_create, DestinationCache};

// 2024-03-10 00:00:00 UTC
const MARCH_10_2024: i64 = 1710028800;

struct FakeFs {
    dirs: Vec<String>,
    files: Vec<String>,
}

impl FakeFs {
    fn has_dir(&self, p: &str) -> bool {
        self.dirs.iter().any(|d| d == p)
    }

    fn has_file(&self, p: &str) -> bool {
        self.files.iter().any(|f| f == p)
    }
}

/// One run of the pipeline over the fake filesystem; returns the
/// destination paths of the files that were moved.
fn run(fs: &mut FakeFs, inputs: &[(&str, i64)], root: &str, dry_run: bool) -> Vec<String> {
    let listed: Vec<String> = inputs.iter().map(|(p, _)| String::from(*p)).collect();
    let kept = filter_by_suffix(&listed, &Some(String::from(".JPG")));

    let mut cache = DestinationCache::new(String::from(root));
    let mut moved = Vec::new();
    for source in &kept {
        let secs = inputs.iter().find(|(p, _)| p == source).unwrap().1;
        let e = entry_for(source.clone(), secs).unwrap();

        let dir = match cache.cached(&e.target_date) {
            Some(p) => p,
            None => {
                let year_dir = cache.year_dir(&e.target_date);
                let year_exists = fs.has_dir(&year_dir);
                // depth-one scan of the year directory; none of the fake
                // runs below pre-populates it, so no children to report
                let (path, create) = cache.resolve_miss(&e.target_date, year_exists, &Vec::new());
                if should_create(create, dry_run) {
                    if !fs.has_dir(&year_dir) {
                        fs.dirs.push(year_dir);
                    }
                    if !fs.has_dir(&path) {
                        fs.dirs.push(path.clone());
                    }
                }
                path
            },
        };

        let target = target_path(&dir, source);
        let plan = plan_relocation(&e, &dir, fs.has_file(&target), dry_run);
        match plan.decision {
            RelocateDecision::Skip | RelocateDecision::DryRun => {},
            RelocateDecision::Move => {
                fs.files.retain(|f| f != source);
                fs.files.push(plan.target.clone());
                moved.push(plan.target);
            },
        }
    }
    moved
}

#[test]
fn two_files_of_one_date_land_in_one_new_directory() {
    let mut fs = FakeFs {
        dirs: vec![String::from("output")],
        files: vec![String::from("input/IMG_001.JPG"), String::from("input/IMG_002.JPG")],
    };
    let inputs = [("input/IMG_001.JPG", MARCH_10_2024), ("input/IMG_002.JPG", MARCH_10_2024 + 3600)];

    let moved = run(&mut fs, &inputs, "output", false);

    assert_eq!(
        moved,
        vec![
            String::from("output/2024/2024-03-10/IMG_001.JPG"),
            String::from("output/2024/2024-03-10/IMG_002.JPG"),
        ]
    );
    // exactly one new bucket directory
    assert_eq!(
        fs.dirs,
        vec![
            String::from("output"),
            String::from("output/2024"),
            String::from("output/2024/2024-03-10"),
        ]
    );
    // the sources are gone, both files are in the bucket
    assert!(!fs.has_file("input/IMG_001.JPG"));
    assert!(!fs.has_file("input/IMG_002.JPG"));
    assert!(fs.has_file("output/2024/2024-03-10/IMG_001.JPG"));
    assert!(fs.has_file("output/2024/2024-03-10/IMG_002.JPG"));

    // a second run finds no input files left and changes nothing
    let dirs_before = fs.dirs.clone();
    let files_before = fs.files.clone();
    let moved_again = run(&mut fs, &[], "output", false);
    assert!(moved_again.is_empty());
    assert_eq!(fs.dirs, dirs_before);
    assert_eq!(fs.files, files_before);
}

#[test]
fn dry_run_changes_nothing() {
    let mut fs = FakeFs {
        dirs: vec![String::from("output")],
        files: vec![String::from("input/IMG_001.JPG")],
    };
    let inputs = [("input/IMG_001.JPG", MARCH_10_2024)];

    let moved = run(&mut fs, &inputs, "output", true);

    assert!(moved.is_empty());
    assert_eq!(fs.dirs, vec![String::from("output")]);
    assert_eq!(fs.files, vec![String::from("input/IMG_001.JPG")]);
}

#[test]
fn occupied_target_survives_a_run() {
    let mut fs = FakeFs {
        dirs: vec![
            String::from("output"),
            String::from("output/2024"),
            String::from("output/2024/2024-03-10"),
        ],
        files: vec![
            String::from("input/IMG_001.JPG"),
            String::from("output/2024/2024-03-10/IMG_001.JPG"),
        ],
    };
    let inputs = [("input/IMG_001.JPG", MARCH_10_2024)];

    // the year directory exists but the fake scan reports no children,
    // so the canonical bucket is resolved again
    let moved = run(&mut fs, &inputs, "output", false);

    assert!(moved.is_empty());
    // source untouched, destination untouched
    assert!(fs.has_file("input/IMG_001.JPG"));
    assert!(fs.has_file("output/2024/2024-03-10/IMG_001.JPG"));
}
