use weft::{current, WorkspaceMetadata};

#[test]
fn reports_workspace_metadata() {
    assert_eq!(
        current(),
        WorkspaceMetadata {
            package_name: "weft-build-meta",
            package_version: "0.1.0",
        }
    );
}
