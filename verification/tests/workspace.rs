use floatdea::data::ids::{
    compact_id, compact_id_of, AttachmentId, ContainerId, EntityId, ReferenceId,
};
use floatdea::data::paths::{extension, file_name, file_stem, join_path};
use floatdea::data::workspace::{
    ContainerKind, ImageAttachment, ReferenceTarget, SpecialKind, Workspace,
};

#[test]
fn adds_container_reference_to_root() {
    let mut workspace = Workspace::empty();
    let container = workspace.create_container("Folder");
    let reference = workspace.add_container_to_root(container.clone());

    assert!(matches!(
        &workspace.root().members[0].target,
        ReferenceTarget::Container(id) if id == &container
    ));
    assert!(workspace.root().members[0].id == reference);
}

#[test]
fn ensure_special_is_idempotent() {
    let mut workspace = Workspace::empty();
    let root = workspace.root.clone();
    assert!(workspace.ensure_special(&root, SpecialKind::Settings).unwrap());
    assert!(!workspace.ensure_special(&root, SpecialKind::Settings).unwrap());
    assert_eq!(
        workspace
            .root()
            .members
            .iter()
            .filter(|reference| matches!(
                &reference.target,
                ReferenceTarget::Special(SpecialKind::Settings)
            ))
            .count(),
        1
    );
}

#[test]
fn containers_form_a_graph_without_parent_ownership() {
    let mut workspace = Workspace::empty();
    let left = workspace.create_container("Left");
    let right = workspace.create_container("Right");
    let entity = EntityId::new();

    workspace.add_snippet_reference(&left, entity.clone()).unwrap();
    workspace.add_snippet_reference(&right, entity.clone()).unwrap();
    workspace.add_container_reference(&left, right.clone()).unwrap();
    workspace.add_container_reference(&right, left.clone()).unwrap();

    assert!(workspace.validate().is_ok());
    assert_eq!(workspace.containers.get(&left).unwrap().members.len(), 2);
    assert_eq!(workspace.containers.get(&right).unwrap().members.len(), 2);
}

#[test]
fn ai_boxes_are_containers_with_ai_workspace_kind() {
    let mut workspace = Workspace::empty();
    let ai_box = workspace.create_ai_box("Analysis");
    assert!(workspace.is_ai_box(&ai_box));
    assert_eq!(
        workspace.containers.get(&ai_box).unwrap().kind,
        ContainerKind::AiWorkspace
    );
    let _ = workspace.add_container_to_root(ai_box.clone());
    assert!(workspace.validate().is_ok());
    // Ordinary containers stay Normal.
    let folder = workspace.create_container("Folder");
    assert_eq!(workspace.containers.get(&folder).unwrap().kind, ContainerKind::Normal);
    assert!(!workspace.is_ai_box(&folder));
}

fn fault(workspace: &Workspace) -> &'static str {
    workspace.validate().unwrap_err().message()
}

#[test]
fn damaged_workspaces_are_refused_with_a_reason() {
    let mut workspace = Workspace::empty();
    assert!(workspace.validate().is_ok());
    workspace.version = 9;
    assert_eq!(fault(&workspace), "unsupported workspace version");

    let mut workspace = Workspace::empty();
    workspace.root = ContainerId::new();
    assert_eq!(fault(&workspace), "workspace root container is missing");

    let mut workspace = Workspace::empty();
    let folder = workspace.create_container("Folder");
    workspace.containers.get_mut(&folder).unwrap().id = ContainerId::new();
    assert_eq!(fault(&workspace), "container map key does not match its id");

    let mut workspace = Workspace::empty();
    let root = workspace.root.clone();
    let card = workspace.add_snippet_to_root(EntityId::new());
    let _ = workspace.add_snippet_to_root(EntityId::new());
    workspace.containers.get_mut(&root).unwrap().members[1].id = card;
    assert_eq!(fault(&workspace), "duplicate reference id");

    let mut workspace = Workspace::empty();
    let folder = workspace.create_container("Folder");
    let _ = workspace.add_container_to_root(folder.clone());
    let _ = workspace.containers.remove(&folder);
    assert_eq!(fault(&workspace), "reference targets a missing container");
}

#[test]
fn references_need_their_container_and_target() {
    let mut workspace = Workspace::empty();
    let root = workspace.root.clone();
    let nowhere = ContainerId::new();
    assert_eq!(
        workspace.add_snippet_reference(&nowhere, EntityId::new()).unwrap_err().message(),
        "container is missing"
    );
    assert_eq!(
        workspace.add_container_reference(&root, nowhere.clone()).unwrap_err().message(),
        "reference targets a missing container"
    );
    assert_eq!(
        workspace.add_image_reference(&root, AttachmentId::new()).unwrap_err().message(),
        "reference targets a missing image attachment"
    );
    assert_eq!(
        workspace.remove_reference(&nowhere, &ReferenceId::new()).unwrap_err().message(),
        "container is missing"
    );
    assert!(workspace.root().members.is_empty());
}

#[test]
fn images_are_added_once() {
    let mut workspace = Workspace::empty();
    let root = workspace.root.clone();
    let image = ImageAttachment {
        id: AttachmentId::new(),
        relative_path: "attachments/a.png".to_owned(),
        title: "a".to_owned(),
        media_type: "image/png".to_owned(),
        byte_len: 3,
        content_hash: String::new(),
        pixel_size: [1, 1],
        original_name: None,
    };
    let id = workspace.add_image(image.clone()).unwrap();
    assert_eq!(
        workspace.add_image(image).unwrap_err().message(),
        "image attachment id already exists"
    );
    workspace.add_image_reference(&root, id.clone()).unwrap();
    assert!(matches!(
        &workspace.root().members[0].target,
        ReferenceTarget::Image(found) if *found == id
    ));
    assert!(workspace.validate().is_ok());
}

#[test]
fn identifiers_are_twenty_small_digits() {
    assert_eq!(compact_id_of(0), "00000000000000000000");
    assert_eq!(compact_id_of(31), "0000000000000000000v");
    assert_eq!(compact_id_of(32), "00000000000000000010");
    assert_eq!(compact_id_of(u128::MAX), "vvvvvvvvvvvvvvvvvvvv");
    let one = EntityId::new();
    let other = EntityId::new();
    assert!(compact_id(one.as_str()));
    assert_ne!(one, other);
    assert!(!compact_id("0000000000000000000"));
    assert!(compact_id("0000000000000000000z"));
    assert!(!compact_id("0000000000000000000_"));
    assert!(!compact_id("0000000000000000000A"));
}

#[test]
fn paths_are_taken_apart() {
    assert_eq!(join_path("/w", "a/b"), "/w/a/b");
    assert_eq!(join_path("/w/", "a"), "/w/a");
    assert_eq!(join_path("/w", "/a"), "/a");
    assert_eq!(file_name("/w/a.tar.gz"), Some("a.tar.gz".to_owned()));
    assert_eq!(file_stem("/w/a.tar.gz"), Some("a.tar".to_owned()));
    assert_eq!(extension("/w/a.tar.gz"), Some("gz".to_owned()));
    assert_eq!(file_stem("/w/.hidden"), Some(".hidden".to_owned()));
    assert_eq!(extension("/w/.hidden"), None);
    assert_eq!(file_name("/"), None);
    assert_eq!(file_name("/w/.."), None);
}

#[test]
fn of_several_special_cards_the_first_stays() {
    let mut workspace = Workspace::empty();
    let root = workspace.root.clone();
    let first = workspace.add_special_to_root(SpecialKind::Settings);
    let note = workspace.add_snippet_to_root(EntityId::new());
    workspace.add_special_to_root(SpecialKind::Settings);

    assert!(!workspace.ensure_special(&root, SpecialKind::Settings).unwrap());

    assert_eq!(workspace.root().members.len(), 2);
    assert!(workspace.root().members[0].id == first);
    assert!(workspace.root().members[1].id == note);
    assert!(workspace.ensure_special(&ContainerId::new(), SpecialKind::Settings).is_err());
}
