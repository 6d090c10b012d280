use cozydot::operations::fonts::{publication, PublicationAction, PublicationStage};
use cozydot::operations::fonts::{font_present, FONT_STATE_ERROR, FONT_STATE_UTF8_ERROR};
use cozydot::operations::fonts::{validate_extracted_entries, ExtractedEntry, NO_FONTS_ERROR};
use cozydot::operations::fonts::{validate_archive_listing, NerdFontsMode, NerdFontsOperation};

fn validate_families(families: &[String]) -> Result<(), String> {
    NerdFontsOperation::new(families.to_vec(), NerdFontsMode::EnsurePresent).map(|_| ())
}

#[test]
fn archive_listing_rejects_absolute_parent_and_empty_paths() {
    validate_archive_listing(b"LICENSE\nGeistMonoNerdFont-Regular.ttf\n").unwrap();
    for listing in [
        b"".as_slice(),
        b"/tmp/font.ttf\n".as_slice(),
        b"../font.ttf\n".as_slice(),
        b"dir/../../font.ttf\n".as_slice(),
    ] {
        assert!(validate_archive_listing(listing).is_err());
    }
}

#[test]
fn family_names_use_the_frozen_definition_grammar() {
    validate_families(&["GeistMono".into(), "JetBrains-Mono_2.0".into()]).unwrap();
    for family in ["", ".Hidden", "Trailing-", "Has Space", "Cascadia+Code", "dir/font", "NerdFont!", "Unicode-λ"] {
        assert!(validate_families(&[family.into()]).is_err(), "{family:?}");
    }
    assert!(validate_families(&["GeistMono".into(), "GeistMono".into()]).is_err());
}

#[test]
fn family_errors_name_the_family() {
    assert_eq!(validate_families(&[]).unwrap_err(), "Nerd Font family sequence must not be empty");
    assert_eq!(validate_families(&["a b".into()]).unwrap_err(), "invalid Nerd Font family name \"a b\"");
    assert_eq!(
        validate_families(&["Hack".into(), "Hack".into()]).unwrap_err(),
        "duplicate Nerd Font family \"Hack\""
    );
}

#[test]
fn listing_errors_are_distinguished() {
    assert_eq!(validate_archive_listing(b"").unwrap_err(), "Nerd Font archive is empty");
    assert_eq!(validate_archive_listing(b"\xff\n").unwrap_err(), "Nerd Font archive listing is not UTF-8");
    assert_eq!(
        validate_archive_listing(b"ok.ttf\nbad\x01name\n").unwrap_err(),
        "Nerd Font archive contains an unsafe path"
    );
}

#[test]
fn display_args_list_mode_and_families() {
    let op = NerdFontsOperation::new(vec!["Hack".into(), "FiraCode".into()], NerdFontsMode::Update).unwrap();
    assert_eq!(op.display_args(), vec!["nerd-fonts", "update", "Hack", "FiraCode"]);
}

#[test]
fn fc_list_output_names_the_installed_family() {
    assert_eq!(font_present(b"Hack Nerd Font,Hack Nerd Font Mono\n", "Hack"), Ok(true));
    assert_eq!(font_present(b"Hack Nerd Font Mono\nOther\n", "Hack"), Ok(false));
    assert_eq!(font_present(b"", "Hack"), Ok(false));
    assert_eq!(font_present(b"Hack Nerd Font\r\n", "Hack").unwrap_err(), FONT_STATE_ERROR);
    assert_eq!(font_present(&[0xff], "Hack").unwrap_err(), FONT_STATE_UTF8_ERROR);
}

#[test]
fn unpacked_fonts_need_a_non_empty_ttf_or_otf_and_no_special_files() {
    let ok = vec![
        ExtractedEntry::Directory,
        ExtractedEntry::File { extension: Some("txt".into()), len: 3 },
        ExtractedEntry::File { extension: Some("ttf".into()), len: 10 },
    ];
    assert_eq!(validate_extracted_entries(&ok), Ok(()));
    let empty = vec![ExtractedEntry::File { extension: Some("otf".into()), len: 0 }];
    assert_eq!(validate_extracted_entries(&empty).unwrap_err(), NO_FONTS_ERROR);
    let link = vec![
        ExtractedEntry::File { extension: Some("ttf".into()), len: 10 },
        ExtractedEntry::Other { path: "/stage/link".into() },
    ];
    assert_eq!(
        validate_extracted_entries(&link).unwrap_err(),
        "Nerd Font archive contains an unsupported file type at /stage/link"
    );
}

#[test]
fn failed_publications_are_rolled_back() {
    let (stage, action) = publication(PublicationStage::Checking, Ok(()));
    assert!(matches!(stage, PublicationStage::Finished));
    assert!(matches!(action, PublicationAction::Finish(Ok(()))));
    let (stage, action) = publication(PublicationStage::Checking, Err("missing".to_string()));
    assert!(matches!(action, PublicationAction::RollBack));
    let (stage, action) = publication(stage, Ok(()));
    assert!(matches!(action, PublicationAction::RefreshCache));
    let (_, action) = publication(stage, Ok(()));
    assert!(matches!(action, PublicationAction::Finish(Err(ref e)) if e == "missing"));
    let (_, action) = publication(PublicationStage::RollingBack("missing".to_string()), Err("busy".to_string()));
    assert!(matches!(action, PublicationAction::Finish(Err(ref e)) if e == "Nerd Font mutation failed and rollback failed: missing"));
    let (_, action) = publication(PublicationStage::RefreshingAfterRollback("missing".to_string()), Err("fc".to_string()));
    assert!(matches!(action, PublicationAction::Finish(Err(ref e)) if e == "Nerd Font mutation failed: missing"));
}
