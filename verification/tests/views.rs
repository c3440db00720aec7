use floatdea::app::commands::{ClipboardEntry, ClipboardSemantics, Viewport};
use floatdea::app::image::{
    attachment_uri, external_image_uri, image_ext_from_path, ImageBytesKey, ImageViewer,
    ViewerAction, ViewerChoice, ViewerScale,
};
use floatdea::app::view::{
    copied_text, drop_link, embed_state, internal_links, paste_link_label, pasted_link,
    picker_matches, window_title, EmbedState, PickerStep, SnippetView, ViewMode, ERROR_FRAMES,
};
use floatdea::data::ai::types::{now_unix, seconds};
use floatdea::data::ids::{AttachmentId, ContainerId, EntityId, ExternalFileId, ReferenceId};
use floatdea::data::workspace::{ExternalFileRef, ImageAttachment, ReferenceTarget, SpecialKind};

fn index(titles: &[(&str, &str)]) -> Vec<(EntityId, String, String)> {
    titles
        .iter()
        .map(|(title, content)| (EntityId::new(), (*title).to_owned(), (*content).to_owned()))
        .collect()
}

fn view(read_only: bool) -> SnippetView {
    SnippetView::new(1, EntityId::new(), ViewMode::Preview, read_only)
}

#[test]
fn modes_change_and_give_the_focus() {
    let mut window = view(false);
    assert!(window.offers_source());
    window.apply_mode(ViewMode::Source);
    assert!(window.mode.is_editing());
    assert!(window.take_focus());
    assert!(!window.take_focus());
    assert!(window.escape());
    assert_eq!(window.mode, ViewMode::Preview);

    let mut fixed = view(true);
    assert!(!fixed.offers_source());
    fixed.apply_mode(ViewMode::Source);
    assert_eq!(fixed.mode, ViewMode::Preview);
    assert!(!fixed.take_focus());
    assert_eq!(window_title(ViewMode::Source, "Note"), "[Edit] Note - FloatDea");
    assert_eq!(window_title(ViewMode::Preview, "Note"), "Note - FloatDea");
}

#[test]
fn picked_snippets_are_linked_at_the_cursor() {
    let notes = index(&[("Alpha", ""), ("Beta", "")]);
    let mut window = view(false);
    let mut content = "ab".to_owned();
    assert!(!window.step_picker(&mut content, PickerStep::Picked(notes[0].0.clone()), &notes));
    window.open_picker(1);
    assert!(!window.escape());
    assert!(!window.step_picker(&mut content, PickerStep::Open, &notes));
    assert!(window.step_picker(&mut content, PickerStep::Picked(notes[0].0.clone()), &notes));
    assert_eq!(content, format!("a[Alpha]({}.md)b", notes[0].0.as_str()));
    assert!(window.link_picker.is_none());

    let mut content = String::new();
    window.open_picker(0);
    window.link_picker.as_mut().unwrap().embed = true;
    assert!(window.step_picker(&mut content, PickerStep::Picked(notes[1].0.clone()), &notes));
    assert_eq!(content, format!("![Beta]({}.md)", notes[1].0.as_str()));
    window.open_picker(0);
    assert!(!window.step_picker(&mut content, PickerStep::Closed, &notes));
    assert!(window.link_picker.is_none());

    assert_eq!(picker_matches("", &notes), [0, 1]);
    assert_eq!(picker_matches("eta", &notes), [1]);
    assert!(picker_matches("alpha", &notes).is_empty());
}

#[test]
fn links_are_followed_or_raise_an_error() {
    let notes = index(&[("Alpha", "")]);
    let mut window = view(false);
    let good = format!("{}.md", notes[0].0.as_str());
    assert_eq!(window.follow_link(&good, &notes), Some(notes[0].0.clone()));
    assert_eq!(window.follow_link("https://example.com", &notes), None);
    assert!(window.step_error().is_none());
    let bad = format!("{}.md", EntityId::new().as_str());
    assert_eq!(window.follow_link(&bad, &notes), None);
    let mut frames: u32 = 0;
    while let Some(message) = window.step_error() {
        assert_eq!(message, format!("{bad}\ndoes not exist."));
        frames += 1;
    }
    assert_eq!(frames, ERROR_FRAMES - 1);
    assert_eq!(
        internal_links(&format!("[a]({good}) [b](https://x.org/y.md) ![c]({bad})")),
        [good]
    );
}

#[test]
fn embeds_show_pages_without_embeds() {
    let notes = index(&[("Alpha", "see ![x](y.md)")]);
    let good = format!("{}.md", notes[0].0.as_str());
    assert!(matches!(
        embed_state(&good, &notes),
        EmbedState::Page(text) if text == "see [x](y.md)"
    ));
    let missing = format!("{}.md", EntityId::new().as_str());
    assert!(matches!(
        embed_state(&missing, &notes),
        EmbedState::Fault(text) if text == format!("missing page: {missing}")
    ));
    assert!(matches!(
        embed_state("notes.md", &notes),
        EmbedState::Fault(text) if text == "invalid embed: notes.md"
    ));
}

#[test]
fn dropped_and_pasted_cards_become_links() {
    let notes = index(&[("Alpha", "")]);
    let id = notes[0].0.clone();
    let link = format!("[Alpha]({}.md)", id.as_str());
    let mut content = "ab".to_owned();
    assert!(drop_link(&mut content, &ReferenceTarget::Snippet(id.clone()), Some(1), &notes));
    assert_eq!(content, format!("a{link}b"));
    let mut content = "ab".to_owned();
    assert!(drop_link(&mut content, &ReferenceTarget::Snippet(id.clone()), None, &notes));
    assert_eq!(content, format!("ab{link}"));
    let settings = ReferenceTarget::Special(SpecialKind::Settings);
    assert!(!drop_link(&mut content, &settings, None, &notes));

    let mut entry = ClipboardEntry {
        source_container: ContainerId::new(),
        reference_id: ReferenceId::new(),
        target: ReferenceTarget::Snippet(id.clone()),
        semantics: ClipboardSemantics::Link,
        origin: Viewport::Root,
    };
    assert_eq!(pasted_link(&entry, &notes), Some((id, "Alpha".to_owned())));
    entry.target = ReferenceTarget::Snippet(EntityId::new());
    assert_eq!(pasted_link(&entry, &notes), None);
    assert_eq!(paste_link_label("Alpha"), "Paste Link: Alpha");
    assert_eq!(copied_text("täglich", Some((1, 3))), ("Copy", "äg".to_owned()));
    assert_eq!(copied_text("text", Some((2, 2))), ("Copy All", "text".to_owned()));
    assert_eq!(copied_text("text", None), ("Copy All", "text".to_owned()));
}

#[test]
fn images_have_addresses() {
    let id = AttachmentId::from_string("abc");
    let image = ImageAttachment {
        id: id.clone(),
        relative_path: String::new(),
        title: String::new(),
        media_type: "image/jpeg".to_owned(),
        byte_len: 0,
        content_hash: String::new(),
        pixel_size: [1, 1],
        original_name: None,
    };
    assert_eq!(attachment_uri(&image), "attachment://abc.jpg");
    assert_eq!(image_ext_from_path("/a/b.PNG"), "png");
    assert_eq!(image_ext_from_path("/a/b.jpeg"), "jpg");
    assert_eq!(image_ext_from_path("/a/b"), "jpg");
    let file = ExternalFileRef {
        id: ExternalFileId::from_string("xyz"),
        path: "/a/b.png".to_owned(),
        title: String::new(),
        media_type: None,
    };
    assert_eq!(external_image_uri(&file), "external-image://xyz.png");
    assert_eq!(ImageBytesKey::Attachment(id).key_label(), "abc");
}

#[test]
fn viewers_scale_and_describe_images() {
    let key = ImageBytesKey::External(ExternalFileId::from_string("xyz"));
    let mut viewer = ImageViewer::new(
        key,
        "Sunset".to_owned(),
        "external-image://xyz.png".to_owned(),
        None,
        None,
        Some("/a/b.png".to_owned()),
    );
    assert_eq!(viewer.scale, ViewerScale::Fit);
    assert_eq!(viewer.footer(None), None);
    viewer.measure([640, 480]);
    viewer.measure([1, 1]);
    assert_eq!(viewer.footer(None), Some("640×480 px".to_owned()));
    assert_eq!(
        viewer.footer(Some("12.5 KB".to_owned())),
        Some("640×480 px · 12.5 KB".to_owned())
    );
    assert_eq!(
        viewer.menu(),
        [ViewerChoice::FitToWindow, ViewerChoice::NaturalSize, ViewerChoice::OpenOriginal]
    );
    assert!(matches!(viewer.choose_item(ViewerChoice::NaturalSize), ViewerAction::Nothing));
    assert_eq!(viewer.scale, ViewerScale::Natural);
    assert!(matches!(
        viewer.choose_item(ViewerChoice::OpenOriginal),
        ViewerAction::OpenOriginal(path) if path == "/a/b.png"
    ));
    viewer.original_path = None;
    assert_eq!(viewer.menu().len(), 2);
}

#[test]
fn clocks_before_the_epoch_read_zero() {
    assert_eq!(seconds(None), 0);
    assert_eq!(seconds(Some(12)), 12);
    assert!(now_unix() > 1_600_000_000);
}
