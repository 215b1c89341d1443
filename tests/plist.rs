use boon::plist::rewrite_app_files;
use boon::types::{BuildError, Project};

fn project() -> Project {
    Project {
        title: "Space Cats".to_string(),
        package_name: "space_cats".to_string(),
        directory: "game".to_string(),
        uti: "com.example.spacecats".to_string(),
        authors: String::new(),
        description: String::new(),
        email: String::new(),
        url: String::new(),
        version: "0.1.0".to_string(),
    }
}

const HEAD: &str = "<?xml version=\"1.0\" encoding=\"UTF-8\"?>\n<plist version=\"1.0\">\n<dict>\n\t<key>CFBundleDevelopmentRegion</key>\n\t<string>English</string>\n";
const IDENTIFIER: &str = "\t<key>CFBundleIdentifier</key>\n\t<string>org.love2d.love</string>\n";
const NAME: &str = "\t<key>CFBundleName</key>\n\t<string>LÖVE</string>\n";
const BLOCK: &str = "\t<key>UTExportedTypeDeclarations</key>\n\t<array>\n\t\t<dict>\n\t\t\t<key>UTTypeIdentifier</key>\n\t\t\t<string>org.love2d.love-game</string>\n\t\t\t<key>UTTypeTagSpecification</key>\n\t\t\t<dict>\n\t\t\t\t<key>public.filename-extension</key>\n\t\t\t\t<array>\n\t\t\t\t\t<string>love</string>\n\t\t\t\t</array>\n\t\t\t</dict>\n\t\t</dict>\n\t</array>\n";
const TAIL: &str = "\t<key>NSHighResolutionCapable</key>\n\t<true/>\n</dict>\n</plist>\n";

#[test]
fn descriptor_takes_project_identity_and_drops_exported_types() {
    let input = [HEAD, IDENTIFIER, NAME, BLOCK, TAIL].concat();
    let out = rewrite_app_files(&project(), &input).unwrap();
    let expected = [
        HEAD,
        "\t<key>CFBundleIdentifier</key>\n\t<string>com.example.spacecats</string>\n",
        "\t<key>CFBundleName</key>\n\t<string>Space Cats</string>\n",
        TAIL,
    ]
    .concat();
    assert_eq!(out, expected);
    assert_eq!(out.matches("com.example.spacecats").count(), 1);
    assert!(!out.contains("UTExportedTypeDeclarations"));
}

#[test]
fn descriptor_without_exported_types_keeps_other_lines() {
    let input = [HEAD, IDENTIFIER, NAME, TAIL].concat();
    let out = rewrite_app_files(&project(), &input).unwrap();
    let expected = [
        HEAD,
        "\t<key>CFBundleIdentifier</key>\n\t<string>com.example.spacecats</string>\n",
        "\t<key>CFBundleName</key>\n\t<string>Space Cats</string>\n",
        TAIL,
    ]
    .concat();
    assert_eq!(out, expected);
}

#[test]
fn only_first_identifier_is_rewritten_and_last_closing_tag_kept() {
    let input = "\t<key>CFBundleIdentifier</key>\n\t<string>a</string> <!-- </string> -->\n\t<key>CFBundleIdentifier</key>\n\t<string>b</string>\n\t<key>CFBundleName</key>\n\t<string>n</string>";
    let out = rewrite_app_files(&project(), input).unwrap();
    assert_eq!(
        out,
        "\t<key>CFBundleIdentifier</key>\n\t<string>com.example.spacecats</string> -->\n\t<key>CFBundleIdentifier</key>\n\t<string>b</string>\n\t<key>CFBundleName</key>\n\t<string>Space Cats</string>"
    );
}

#[test]
fn descriptor_without_identifier_is_an_error() {
    let input = [HEAD, NAME, TAIL].concat();
    assert!(matches!(rewrite_app_files(&project(), &input), Err(BuildError::MetadataRewriteError)));
    let input = [HEAD, IDENTIFIER, TAIL].concat();
    assert!(matches!(rewrite_app_files(&project(), &input), Err(BuildError::MetadataRewriteError)));
    assert!(matches!(rewrite_app_files(&project(), ""), Err(BuildError::MetadataRewriteError)));
}

#[test]
fn unclosed_exported_types_block_is_kept() {
    let input = [IDENTIFIER, NAME, "\t<key>UTExportedTypeDeclarations</key>\n\t<array>\n"].concat();
    let out = rewrite_app_files(&project(), &input).unwrap();
    assert!(out.contains("UTExportedTypeDeclarations"));
}
