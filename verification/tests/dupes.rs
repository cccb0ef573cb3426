use std::collections::hash_map::DefaultHasher;
use std::hash::{Hash, Hasher};

use fallow_cli::dupes::{dupe_group_key, dupes_keys, CloneGroup, CloneInstance};

fn instance(file: &str, fragment: &str) -> CloneInstance {
    CloneInstance { file: file.to_string(), fragment: fragment.to_string() }
}

fn expected_hash(fragments: &[&str]) -> String {
    let mut hasher = DefaultHasher::new();
    for f in fragments {
        f.to_string().hash(&mut hasher);
    }
    format!("{:x}", hasher.finish())
}

#[test]
fn dupe_key_lists_sorted_distinct_files_counts_and_fragment_hash() {
    let group = CloneGroup {
        instances: vec![
            instance("/repo/src/b.ts", "const x = 1;\nconst y = 2;"),
            instance("/repo/src/a.ts", "const x = 1;\nconst y = 2;"),
            instance("/repo/src/b.ts", "const x = 1;\nconst y = 2;"),
        ],
        token_count: 42,
        line_count: 7,
    };
    let key = dupe_group_key(&group, "/repo");
    let hash = expected_hash(&[
        "const x = 1;\nconst y = 2;",
        "const x = 1;\nconst y = 2;",
        "const x = 1;\nconst y = 2;",
    ]);
    assert_eq!(key, format!("dupe:src/a.ts|src/b.ts:42:7:{hash}"));
}

#[test]
fn dupe_key_hash_follows_fragment_order() {
    let a = CloneGroup {
        instances: vec![instance("/r/a.ts", "alpha"), instance("/r/b.ts", "beta")],
        token_count: 1,
        line_count: 1,
    };
    let key = dupe_group_key(&a, "/r");
    assert_eq!(key, format!("dupe:a.ts|b.ts:1:1:{}", expected_hash(&["alpha", "beta"])));
}

#[test]
fn dupe_key_outside_root_keeps_path() {
    let g = CloneGroup { instances: vec![instance("/other/x.ts", "")], token_count: 0, line_count: 0 };
    let key = dupe_group_key(&g, "/repo");
    assert_eq!(key, format!("dupe:/other/x.ts:0:0:{}", expected_hash(&[""])));
}

#[test]
fn dupes_keys_one_per_group() {
    let g1 = CloneGroup { instances: vec![instance("/r/a.ts", "x")], token_count: 3, line_count: 2 };
    let g2 = CloneGroup { instances: vec![instance("/r/b.ts", "y")], token_count: 5, line_count: 4 };
    let keys = dupes_keys(&vec![g1, g2], "/r");
    assert_eq!(keys.len(), 2);
    assert!(keys[0].starts_with("dupe:a.ts:3:2:"));
    assert!(keys[1].starts_with("dupe:b.ts:5:4:"));
}
