use resource_sync::{
    download_assets, AssetIndex, AssetIndexInfo, AssetIndexItem, AssetsEvent, AssetsStep,
    DownloadParam, FetchOutcome, InstanceError, LocalFile, McClientInfo, SyncTarget,
};

const H1: &str = "abcdef0123456789abcdef0123456789abcdef01";
const H2: &str = "0123456789abcdef0123456789abcdef01234567";
const BASE: &str = "https://mirror.example.com/assets/";

fn client() -> McClientInfo {
    McClientInfo {
        asset_index: AssetIndexInfo {
            id: "17".to_string(),
            url: "https://meta.example.com/indexes/17.json".to_string(),
        },
        libraries: Vec::new(),
    }
}

fn index() -> AssetIndex {
    AssetIndex {
        objects: vec![
            ("a.png".to_string(), AssetIndexItem { hash: H1.to_string(), size: 10 }),
            ("b.png".to_string(), AssetIndexItem { hash: H2.to_string(), size: 20 }),
            ("copy-of-a.png".to_string(), AssetIndexItem { hash: H1.to_string(), size: 10 }),
        ],
    }
}

fn failed(error: InstanceError) -> AssetsStep {
    AssetsStep::Done { result: Err(error) }
}

#[test]
fn pass_begins_with_fetching_the_index() {
    assert_eq!(
        download_assets(BASE, &client(), AssetsEvent::Started),
        AssetsStep::FetchIndex { url: "https://meta.example.com/indexes/17.json".to_string() }
    );
}

#[test]
fn unreachable_index_is_a_network_error() {
    assert_eq!(
        download_assets(BASE, &client(), AssetsEvent::IndexFetched { outcome: FetchOutcome::Unreachable }),
        failed(InstanceError::NetworkError)
    );
}

#[test]
fn body_that_is_no_json_is_a_parse_error() {
    assert_eq!(
        download_assets(BASE, &client(), AssetsEvent::IndexFetched { outcome: FetchOutcome::Unreadable }),
        failed(InstanceError::ManifestParseError)
    );
}

#[test]
fn received_index_is_kept_under_its_identifier() {
    assert_eq!(
        download_assets(BASE, &client(), AssetsEvent::IndexFetched { outcome: FetchOutcome::Received }),
        AssetsStep::CreateFolder { path: "assets/indexes".to_string() }
    );
    assert_eq!(
        download_assets(BASE, &client(), AssetsEvent::FolderCreated { created: true }),
        AssetsStep::WriteIndex { path: "assets/indexes/17.json".to_string() }
    );
}

#[test]
fn folder_that_cannot_be_created_ends_the_pass() {
    assert_eq!(
        download_assets(BASE, &client(), AssetsEvent::FolderCreated { created: false }),
        failed(InstanceError::FolderCreationFailed)
    );
}

#[test]
fn index_that_cannot_be_written_ends_the_pass() {
    assert_eq!(
        download_assets(BASE, &client(), AssetsEvent::IndexWritten { written: false, read: Some(&index()) }),
        failed(InstanceError::FileCreationFailed)
    );
    assert_eq!(
        download_assets(BASE, &client(), AssetsEvent::IndexWritten { written: false, read: None }),
        failed(InstanceError::FileCreationFailed)
    );
}

#[test]
fn json_that_is_no_index_is_a_parse_error() {
    assert_eq!(
        download_assets(BASE, &client(), AssetsEvent::IndexWritten { written: true, read: None }),
        failed(InstanceError::ManifestParseError)
    );
}

#[test]
fn written_index_leads_to_probing_each_object_once() {
    assert_eq!(
        download_assets(BASE, &client(), AssetsEvent::IndexWritten { written: true, read: Some(&index()) }),
        AssetsStep::ProbeStore {
            targets: vec![
                SyncTarget { remote: format!("ab/{}", H1), dest: format!("objects/ab/{}", H1), sha1: H1.to_string() },
                SyncTarget { remote: format!("01/{}", H2), dest: format!("objects/01/{}", H2), sha1: H2.to_string() },
            ],
        }
    );
}

#[test]
fn probed_store_ends_with_the_missing_objects() {
    let observed = vec![LocalFile::absent(), LocalFile::present()];
    assert_eq!(
        download_assets(BASE, &client(), AssetsEvent::StoreProbed { index: &index(), observed: &observed }),
        AssetsStep::Done {
            result: Ok(vec![DownloadParam {
                src: format!("https://mirror.example.com/assets/ab/{}", H1),
                dest: format!("objects/ab/{}", H1),
                filename: None,
                sha1: Some(H1.to_string()),
            }]),
        }
    );
    let all_there = vec![LocalFile::present(), LocalFile::verified(&Ok(()))];
    assert_eq!(
        download_assets(BASE, &client(), AssetsEvent::StoreProbed { index: &index(), observed: &all_there }),
        AssetsStep::Done { result: Ok(Vec::new()) }
    );
}

#[test]
fn missing_object_without_address_ends_the_pass() {
    let observed = vec![LocalFile::present(), LocalFile::absent()];
    assert_eq!(
        download_assets("mailto:someone@example.com", &client(), AssetsEvent::StoreProbed { index: &index(), observed: &observed }),
        failed(InstanceError::SourceResolutionError)
    );
}

#[test]
fn whole_pass_runs_step_by_step() {
    let info = client();
    let received = index();
    let mut observed = Vec::new();
    let mut step = download_assets(BASE, &info, AssetsEvent::Started);
    let mut steps = 1;
    let result = loop {
        let event = match step {
            AssetsStep::FetchIndex { .. } => AssetsEvent::IndexFetched { outcome: FetchOutcome::Received },
            AssetsStep::CreateFolder { .. } => AssetsEvent::FolderCreated { created: true },
            AssetsStep::WriteIndex { .. } => AssetsEvent::IndexWritten { written: true, read: Some(&received) },
            AssetsStep::ProbeStore { targets } => {
                observed = targets.iter().map(|_| LocalFile::absent()).collect();
                AssetsEvent::StoreProbed { index: &received, observed: &observed }
            }
            AssetsStep::Done { result } => break result,
        };
        step = download_assets(BASE, &info, event);
        steps += 1;
    };
    assert_eq!(steps, 5);
    assert_eq!(result.map(|params| params.len()), Ok(2));
}
