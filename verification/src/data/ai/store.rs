//! The files of AI workspaces. Each has one of its own, so that nothing done to
//! one AI workspace touches the conversations of another.
use crate::data::ai::types::{AiBoxData, Conversation, AI_BOX_DATA_VERSION};
use crate::data::ids::ContainerId;
use crate::data::paths::{join_path, joined_path};
use crate::text::join2;
use vstd::prelude::*;

verus! {

/// The files of the AI workspaces of one workspace.
#[derive(Debug)]
pub struct AiStore {
    root: String,
}

/// The data of an AI workspace without conversations.
pub open spec fn is_empty_box(data: AiBoxData, ai_box: ContainerId) -> bool {
    &&& data.version == AI_BOX_DATA_VERSION
    &&& data.ai_box == ai_box
    &&& data.conversations@ == Map::<Seq<char>, Conversation>::empty()
}

/// What is loaded for an AI workspace whose file holds `stored`.
pub open spec fn loads(r: AiBoxData, ai_box: ContainerId, stored: Option<AiBoxData>) -> bool {
    match stored {
        Some(data) => if data.version == AI_BOX_DATA_VERSION && data.ai_box@ == ai_box@ {
            r == data
        } else {
            is_empty_box(r, ai_box)
        },
        None => is_empty_box(r, ai_box),
    }
}

impl AiStore {
    /// The root of the workspace.
    pub closed spec fn root_text(&self) -> Seq<char> {
        self.root@
    }

    /// The path of the file of an AI workspace.
    pub open spec fn box_path_text(&self, ai_box: Seq<char>) -> Seq<char> {
        joined_path(joined_path(self.root_text(), ".floatdea/ai"@), ai_box + ".json"@)
    }

    /// The store under `root`. The caller creates the directory.
    pub fn open(root: &str) -> (r: Self)
        ensures
            r.root_text() == root@,
    {
        AiStore { root: root.to_owned() }
    }

    /// The directory of the files.
    pub fn dir(&self) -> (r: String)
        ensures
            r@ == joined_path(self.root_text(), ".floatdea/ai"@),
    {
        join_path(&self.root, ".floatdea/ai")
    }

    /// The path of the file of an AI workspace.
    pub fn box_path(&self, ai_box: &ContainerId) -> (r: String)
        ensures
            r@ == self.box_path_text(ai_box@),
    {
        let name = join2(ai_box.as_str(), ".json");
        join_path(&self.dir(), &name)
    }

    /// The data of an AI workspace. `stored` is what its file holds; a file that
    /// is missing, damaged, of another version or of another AI workspace counts
    /// as empty.
    pub fn load_box(&self, ai_box: &ContainerId, stored: Option<AiBoxData>) -> (r: AiBoxData)
        ensures
            loads(r, *ai_box, stored),
    {
        match stored {
            Some(data) => {
                if data.version == AI_BOX_DATA_VERSION && data.ai_box == *ai_box {
                    data
                } else {
                    AiBoxData::empty(ai_box.clone())
                }
            },
            None => AiBoxData::empty(ai_box.clone()),
        }
    }

    /// The path to write the data of an AI workspace to.
    pub fn save_box(&self, data: &AiBoxData) -> (r: String)
        ensures
            r@ == self.box_path_text(data.ai_box@),
    {
        self.box_path(&data.ai_box)
    }

    /// The path of the file to remove for an AI workspace. It is no fault if
    /// there is none.
    pub fn remove_box(&self, ai_box: &ContainerId) -> (r: String)
        ensures
            r@ == self.box_path_text(ai_box@),
    {
        self.box_path(ai_box)
    }
}

/// The identifier would be taken for an absolute path.
pub open spec fn is_absolute(id: Seq<char>) -> bool {
    id.len() > 0 && id[0] == '/'
}

/// Two AI workspaces never share a file, unless the identifier of one of them is
/// an absolute path, which may lead to the file of the other.
pub proof fn boxes_have_their_own_files(store: AiStore, a: Seq<char>, b: Seq<char>)
    requires
        is_absolute(a) == is_absolute(b),
        store.box_path_text(a) == store.box_path_text(b),
    ensures
        a == b,
{
    reveal_strlit(".floatdea/ai");
    reveal_strlit(".json");
    reveal_strlit("/");
    let dir = joined_path(store.root_text(), ".floatdea/ai"@);
    assert(dir.last() == 'i');
    let pa = store.box_path_text(a);
    let pb = store.box_path_text(b);
    let x = a + ".json"@;
    let y = b + ".json"@;
    let start = if is_absolute(a) {
        0
    } else {
        dir.len() + 1
    };
    if is_absolute(a) {
        assert(x[0] == '/' && y[0] == '/');
    } else {
        assert(x[0] != '/' && y[0] != '/');
        assert(pa == dir + "/"@ + x);
        assert(pb == dir + "/"@ + y);
    }
    assert(pa.len() == start + x.len());
    assert(pb.len() == start + y.len());
    assert(a.len() == b.len());
    assert forall|i: int| 0 <= i < a.len() implies a[i] == b[i] by {
        assert(pa[start + i] == x[i]);
        assert(pb[start + i] == y[i]);
    }
    assert(a =~= b);
}

/// What the file of an AI workspace holds, where `files` is what the files hold by
/// their paths.
pub open spec fn stored_box(store: AiStore, files: Map<Seq<char>, AiBoxData>, id: Seq<char>) -> Option<
    AiBoxData,
> {
    if files.contains_key(store.box_path_text(id)) {
        Some(files[store.box_path_text(id)])
    } else {
        None
    }
}

/// Saving an AI workspace stores it, and what is loaded for any other stays what
/// it was.
pub proof fn saving_a_box_keeps_the_others(
    store: AiStore,
    files: Map<Seq<char>, AiBoxData>,
    data: AiBoxData,
    other: ContainerId,
    loaded: AiBoxData,
)
    requires
        other@ != data.ai_box@,
        is_absolute(other@) == is_absolute(data.ai_box@),
    ensures
        ({
            let after = files.insert(store.box_path_text(data.ai_box@), data);
            &&& stored_box(store, after, data.ai_box@) == Some(data)
            &&& stored_box(store, after, other@) == stored_box(store, files, other@)
            &&& loads(loaded, other, stored_box(store, after, other@)) == loads(
                loaded,
                other,
                stored_box(store, files, other@),
            )
        }),
{
    if store.box_path_text(other@) == store.box_path_text(data.ai_box@) {
        boxes_have_their_own_files(store, other@, data.ai_box@);
    }
}

/// Removing an AI workspace removes its file, and what is loaded for any other
/// stays what it was.
pub proof fn removing_a_box_keeps_the_others(
    store: AiStore,
    files: Map<Seq<char>, AiBoxData>,
    ai_box: ContainerId,
    other: ContainerId,
    loaded: AiBoxData,
)
    requires
        other@ != ai_box@,
        is_absolute(other@) == is_absolute(ai_box@),
    ensures
        ({
            let after = files.remove(store.box_path_text(ai_box@));
            &&& stored_box(store, after, ai_box@) is None
            &&& stored_box(store, after, other@) == stored_box(store, files, other@)
            &&& loads(loaded, other, stored_box(store, after, other@)) == loads(
                loaded,
                other,
                stored_box(store, files, other@),
            )
        }),
{
    if store.box_path_text(other@) == store.box_path_text(ai_box@) {
        boxes_have_their_own_files(store, other@, ai_box@);
    }
}

/// What was saved for an AI workspace is what is loaded for it.
pub proof fn saved_boxes_load(data: AiBoxData, loaded: AiBoxData)
    requires
        data.version == AI_BOX_DATA_VERSION,
        loads(loaded, data.ai_box, Some(data)),
    ensures
        loaded == data,
{
}

} // verus!
