use pixi_conda::progress::{pad, CacheEntry, DownloadReport, Reporter};
use pixi_conda::reconcile::ResolvedRecord;
use pixi_conda::report::{
    display_channel, join, make_row, transaction_rows, PackageFeatures, TransactionRow,
};

fn resolved(name: &str, version: &str, channel: Option<&str>) -> ResolvedRecord {
    ResolvedRecord {
        name: name.to_string(),
        version: version.to_string(),
        build: "h0".to_string(),
        channel: channel.map(|c| c.to_string()),
        size: Some(1024),
    }
}

#[test]
fn a_channel_is_shown_without_scheme_and_trailing_slashes() {
    assert_eq!(display_channel("https://conda.anaconda.org/conda-forge/"), "conda.anaconda.org/conda-forge");
    assert_eq!(display_channel("conda-forge"), "conda-forge");
    assert_eq!(display_channel("conda-forge///"), "conda-forge");
    assert_eq!(display_channel("file:///home/user/channel"), "/home/user/channel");
    assert_eq!(display_channel("a://b://c/"), "b://c");
    assert_eq!(display_channel("://"), "");
    assert_eq!(display_channel("https:////"), "");
    assert_eq!(display_channel(""), "");
    assert_eq!(display_channel(":/"), ":");
    assert_eq!(display_channel("/"), "");
}

#[test]
fn texts_are_joined_with_comma_and_space() {
    assert_eq!(join(&vec![]), "");
    assert_eq!(join(&vec!["a".to_string()]), "a");
    assert_eq!(join(&vec!["a".to_string(), "b".to_string(), "".to_string()]), "a, b, ");
}

#[test]
fn a_row_shows_the_selected_features() {
    let features = vec![
        PackageFeatures { name: "numpy".to_string(), features: vec!["blas".to_string(), "mkl".to_string()] },
        PackageFeatures { name: "numpy".to_string(), features: vec!["ignored".to_string()] },
        PackageFeatures { name: "scipy".to_string(), features: vec![] },
    ];
    assert_eq!(
        make_row(&resolved("numpy", "2.1", Some("https://host/conda-forge/")), &features),
        TransactionRow {
            package: "numpy[blas, mkl]".to_string(),
            version: "2.1".to_string(),
            build: "h0".to_string(),
            channel: "host/conda-forge".to_string(),
            size: Some(1024),
        }
    );
    assert_eq!(make_row(&resolved("scipy", "1", None), &features).package, "scipy[]");
    assert_eq!(make_row(&resolved("python", "3", None), &features).package, "python");
    assert_eq!(make_row(&resolved("python", "3", None), &features).channel, "");
}

#[test]
fn the_table_is_ordered_by_package_name() {
    let records = vec![
        resolved("zlib", "1", None),
        resolved("python", "3.12", None),
        resolved("bzip2", "1", None),
        resolved("python", "3.11", None),
    ];
    let rows = transaction_rows(&records, &vec![]);
    let shown: Vec<(&str, &str)> =
        rows.iter().map(|r| (r.package.as_str(), r.version.as_str())).collect();
    assert_eq!(shown, vec![("bzip2", "1"), ("python", "3.12"), ("python", "3.11"), ("zlib", "1")]);
    assert!(transaction_rows(&vec![], &vec![]).is_empty());
}

#[test]
fn names_are_padded_on_the_right() {
    assert_eq!(pad("abc", 5), "abc  ");
    assert_eq!(pad("abc", 3), "abc");
    assert_eq!(pad("abc", 0), "abc");
    assert_eq!(pad("", 2), "  ");
}

#[test]
fn slots_are_addressed_by_the_index_that_was_handed_out() {
    let mut reporter = Reporter::new();
    reporter.on_transaction_start(&vec!["python".to_string(), "zlib".to_string(), "numpy".to_string()]);
    assert_eq!(reporter.on_populate_cache_start("zlib".to_string(), None), 0);
    assert_eq!(reporter.on_populate_cache_start("python".to_string(), Some(2048)), 1);
    assert_eq!(reporter.on_validate_start(1), 1);
    assert_eq!(reporter.on_download_start(1, 1_000), 1);
    assert_eq!(reporter.on_download_start(0, 1_500), 0);
    assert_eq!(
        reporter.on_download_completed(1, 3_250),
        DownloadReport { name: "python".to_string(), size: Some(2048), elapsed_millis: 2_250 }
    );
    assert_eq!(
        reporter.on_download_completed(0, 1_400),
        DownloadReport { name: "zlib  ".to_string(), size: None, elapsed_millis: 0 }
    );
    assert_eq!(reporter.on_unlink_start(7), 7);
    assert_eq!(reporter.on_link_start("zlib".to_string()), 0);
    assert_eq!(reporter.on_link_start("python".to_string()), 1);
    assert_eq!(reporter.on_link_complete(0), "zlib  ");
    assert_eq!(reporter.on_link_complete(1), "python");
}

#[test]
fn without_a_transaction_nothing_is_padded() {
    let mut reporter = Reporter::new();
    reporter.on_transaction_start(&vec![]);
    assert_eq!(reporter.on_link_start("zlib".to_string()), 0);
    assert_eq!(reporter.on_link_complete(0), "zlib");
    let entry = CacheEntry { name: "a".to_string(), size: None, download_started: None };
    assert_eq!(entry.clone(), entry);
}
