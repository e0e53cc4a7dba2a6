use gitsplode::assemble;
use gitsplode::assemble::sort_names;
use gitsplode::assemble::str_le;
use gitsplode::pipeline::advance;
use gitsplode::pipeline::cache_file_name;
use gitsplode::pipeline::configure_args;
use gitsplode::pipeline::descriptor_names;
use gitsplode::pipeline::feature_disable_flags;
use gitsplode::pipeline::join_path;
use gitsplode::pipeline::link_directives;
use gitsplode::pipeline::parse_all;
use gitsplode::pipeline::staging_plan;
use gitsplode::pipeline::usize_to_string;
use gitsplode::AssembleError;
use gitsplode::Error;
use gitsplode::Stage;

#[test]
fn the_pipeline_is_linear_and_fatal() {
    let mut s = Stage::SyncVendored;
    let order = [
        Stage::SyncVendored,
        Stage::MakeConfigure,
        Stage::Configure,
        Stage::Compile,
        Stage::StageArchives,
        Stage::EmitLinks,
        Stage::Generate,
        Stage::WriteRoot,
        Stage::Done,
    ];
    for expected in order.iter() {
        assert_eq!(s, *expected);
        s = advance(s, true);
    }
    assert_eq!(s, Stage::Done);
    assert_eq!(advance(Stage::Compile, false), Stage::Failed);
    assert_eq!(advance(Stage::Failed, true), Stage::Failed);
}

#[test]
fn decimal_rendering_is_exact() {
    assert_eq!(usize_to_string(0), "0");
    assert_eq!(usize_to_string(7), "7");
    assert_eq!(usize_to_string(42), "42");
    assert_eq!(usize_to_string(1234), "1234");
}

#[test]
fn the_cache_file_is_keyed_by_the_flags() {
    let flags = feature_disable_flags();
    assert_eq!(
        flags,
        vec!["--without-tcltk".to_string(), "--without-python".to_string()]
    );
    let name = cache_file_name(&flags);
    assert_eq!(name, "config---without-tcltk---without-python.cache");
    let other = cache_file_name(&vec!["--without-tcltk".to_string()]);
    assert_ne!(name, other);
    let odd = cache_file_name(&vec!["a b/c".to_string()]);
    assert_eq!(odd, "config-a_b_c.cache");
}

#[test]
fn configure_arguments_carry_cache_then_flags() {
    let flags = feature_disable_flags();
    let args = configure_args(&flags);
    assert_eq!(
        args,
        vec![
            "--cache-file=config---without-tcltk---without-python.cache".to_string(),
            "--without-tcltk".to_string(),
            "--without-python".to_string(),
        ]
    );
}

#[test]
fn three_archives_are_staged() {
    let plan = staging_plan("vendor/git", "out");
    assert_eq!(
        plan,
        vec![
            ("vendor/git/libgit.a".to_string(), "out/libgit.a".to_string()),
            ("vendor/git/xdiff/lib.a".to_string(), "out/libxdiff.a".to_string()),
            (
                "vendor/git/reftable/libreftable.a".to_string(),
                "out/libreftable.a".to_string()
            ),
        ]
    );
    assert_eq!(join_path("a", "b"), "a/b");
}

#[test]
fn link_directives_name_three_archives_and_one_system_library() {
    let d = link_directives("out");
    assert_eq!(
        d,
        vec![
            "cargo:rustc-link-search=native=out".to_string(),
            "cargo:rustc-link-lib=static=git".to_string(),
            "cargo:rustc-link-lib=static=xdiff".to_string(),
            "cargo:rustc-link-lib=static=reftable".to_string(),
            "cargo:rustc-link-lib=z".to_string(),
        ]
    );
}

#[test]
fn discovery_keeps_descriptors_and_skips_the_rest() {
    let listing = vec![
        Some("alpha.toml".to_string()),
        Some("README.md".to_string()),
        Some("beta.toml".to_string()),
    ];
    let found = descriptor_names(&listing).unwrap();
    assert_eq!(
        found,
        vec![
            ("alpha".to_string(), "alpha.toml".to_string()),
            ("beta".to_string(), "beta.toml".to_string()),
        ]
    );
}

#[test]
fn discovery_rejects_a_missing_stem() {
    let r = descriptor_names(&vec![Some(".toml".to_string())]);
    assert!(matches!(r, Err(Error::Filename)));
}

#[test]
fn discovery_rejects_an_unreadable_name() {
    let r = descriptor_names(&vec![None]);
    assert!(matches!(r, Err(Error::Filename)));
}

#[test]
fn every_descriptor_is_parsed_or_the_run_aborts() {
    let good = vec![
        ("alpha".to_string(), "header = \"int a;\"".to_string()),
        ("beta".to_string(), "header = \"int b;\"".to_string()),
    ];
    let parsed = parse_all(good, "#define X 1").unwrap();
    assert_eq!(parsed.len(), 2);
    assert_eq!(parsed[0].0, "alpha");
    assert_eq!(parsed[0].1.header_text(), "#define X 1\nint a;");
    assert_eq!(parsed[1].1.header_text(), "#define X 1\nint b;");

    let mixed = vec![
        ("alpha".to_string(), "header = \"int a;\"".to_string()),
        ("bad".to_string(), "???".to_string()),
    ];
    let r = parse_all(mixed, "#define X 1");
    assert!(matches!(r, Err(Error::Deserialize(_))));
}

#[test]
fn names_sort_lexicographically() {
    assert!(str_le("alpha", "beta"));
    assert!(!str_le("beta", "alpha"));
    assert!(str_le("alp", "alpha"));
    assert!(str_le("same", "same"));
    let sorted = sort_names(vec![
        "gamma".to_string(),
        "alpha".to_string(),
        "beta".to_string(),
    ]);
    assert_eq!(
        sorted,
        vec!["alpha".to_string(), "beta".to_string(), "gamma".to_string()]
    );
}

#[test]
fn the_root_module_is_sorted_and_order_independent() {
    let a = assemble(vec![
        "gamma".to_string(),
        "alpha".to_string(),
        "beta".to_string(),
    ])
    .unwrap();
    assert_eq!(a, "pub mod alpha;\npub mod beta;\npub mod gamma;\n");
    assert_eq!(a.lines().count(), 3);
    let b = assemble(vec![
        "beta".to_string(),
        "gamma".to_string(),
        "alpha".to_string(),
    ])
    .unwrap();
    assert_eq!(a, b);
}

#[test]
fn name_collisions_are_rejected() {
    let r = assemble(vec![
        "alpha".to_string(),
        "beta".to_string(),
        "alpha".to_string(),
    ]);
    assert!(matches!(r, Err(AssembleError::Collision)));
}

#[test]
fn an_empty_listing_assembles_an_empty_root() {
    assert_eq!(assemble(Vec::new()).unwrap(), "");
}
