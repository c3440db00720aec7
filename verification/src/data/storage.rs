//! Snippets as text files in one folder.
//!
//! A file is named after the title and the identifier of its snippet. The store
//! decides on names; reading and writing the files is left to the caller.
use crate::data::ids::{compact_id, is_compact_id, EntityId};
use crate::data::model::Snippet;
use crate::data::paths::{extension, extension_of, extension_text, file_name_text, file_stem,
    file_stem_text, join_path, joined_path, last_dot_is, plain_name_is_file_name, stem_of};
use crate::text::{chars_of, join2, join3, order_texts, same_text, string_between, text_less,
    text_less_irreflexive, text_less_total, text_less_transitive, TextOrder};
use vstd::prelude::*;

verus! {

/// Why a snippet has no file.
#[derive(Clone, Copy, Debug, PartialEq, Eq, Structural)]
pub enum StorageError {
    /// The title is empty, or leads out of the folder.
    Title,
    /// The identifier is empty, or leads out of the folder.
    Id,
}

impl StorageError {
    pub open spec fn message_text(self) -> Seq<char> {
        match self {
            StorageError::Title => "snippet title cannot be empty or contain path separators"@,
            StorageError::Id => "snippet id cannot be empty or contain path separators"@,
        }
    }

    /// The message for the user.
    pub fn message(self) -> (r: &'static str)
        ensures
            r@ == self.message_text(),
    {
        match self {
            StorageError::Title => "snippet title cannot be empty or contain path separators",
            StorageError::Id => "snippet id cannot be empty or contain path separators",
        }
    }
}

/// The text holds no path separator and no null character.
pub open spec fn has_no_separator(s: Seq<char>) -> bool {
    forall|i: int|
        0 <= i < s.len() ==> (#[trigger] s[i]) != '/' && s[i] != '\\' && s[i] != '\0'
}

/// The title can stand in a file name.
pub open spec fn title_ok(title: Seq<char>) -> bool {
    &&& title.len() > 0
    &&& title != "."@
    &&& title != ".."@
    &&& has_no_separator(title)
}

/// The identifier can stand in a file name.
pub open spec fn id_ok(id: Seq<char>) -> bool {
    id.len() > 0 && has_no_separator(id)
}

/// The title and the identifier, as they stand in a file name.
pub open spec fn file_label(title: Seq<char>, id: Seq<char>) -> Seq<char> {
    title + "--"@ + id
}

/// The name of the file of a snippet.
pub open spec fn snippet_file(title: Seq<char>, id: Seq<char>) -> Seq<char> {
    file_label(title, id) + ".txt"@
}

/// Where the last `--` begins among the first `end` characters, or -1.
pub open spec fn last_dashes(s: Seq<char>, end: int) -> int
    decreases end,
{
    if end < 2 {
        -1
    } else if s[end - 2] == '-' && s[end - 1] == '-' {
        end - 2
    } else {
        last_dashes(s, end - 1)
    }
}

/// A character of an identifier of the older form.
pub open spec fn is_ulid_char(c: char) -> bool {
    let n = c as int;
    let letter = if 0x61 <= n <= 0x7a {
        n - 0x20
    } else {
        n
    };
    ||| 0x30 <= n <= 0x39
    ||| 0x41 <= letter <= 0x5a && letter != 0x49 && letter != 0x4c && letter != 0x4f && letter
        != 0x55
}

/// An identifier of the older form: 26 characters of an alphabet of 32.
pub open spec fn is_ulid_text(id: Seq<char>) -> bool {
    id.len() == 26 && forall|i: int| 0 <= i < id.len() ==> is_ulid_char(#[trigger] id[i])
}

/// The text can be the identifier of a stored snippet.
pub open spec fn is_supported(id: Seq<char>) -> bool {
    is_compact_id(id) || is_ulid_text(id)
}

/// The title and the identifier that the stem of a file name tells.
pub open spec fn parsed_stem(stem: Seq<char>) -> Option<(Seq<char>, Seq<char>)> {
    let at = last_dashes(stem, stem.len() as int);
    if at > 0 && is_supported(stem.skip(at + 2)) {
        Some((stem.take(at), stem.skip(at + 2)))
    } else {
        None
    }
}

/// Tells whether `ulid::Ulid::from_string` accepts a text. It accepts the texts
/// of 26 bytes that all stand in its table of digits: the digits, and the
/// letters but for I, L, O and U, in either case.
#[verifier::external_body]
fn is_ulid(id: &str) -> (r: bool)
    ensures
        r == is_ulid_text(id@),
{
    ulid::Ulid::from_string(id).is_ok()
}

fn supported_id(id: &str) -> (r: bool)
    ensures
        r == is_supported(id@),
{
    compact_id(id) || is_ulid(id)
}

/// What the store does with a file of its folder.
#[derive(Debug)]
pub enum LoadPlan {
    /// The file holds no snippet.
    Skip,
    /// The file holds the content of this snippet.
    Read { title: String, id: EntityId },
    /// The file gets a name of its own, and then holds the content of this
    /// snippet.
    Adopt { title: String, id: EntityId, path: String },
}

/// A file of the folder. Its text is read only if it holds a snippet.
#[derive(Debug)]
pub struct FolderEntry {
    pub name: String,
    /// It is a regular file.
    pub is_file: bool,
    pub text: String,
}

/// The file holds a snippet: it is a text file.
pub open spec fn is_snippet_file(name: Seq<char>, is_file: bool) -> bool {
    is_file && extension_text(name) == Some("txt"@)
}

/// Whether a file holds a snippet.
pub fn holds_snippet(name: &str, is_file: bool) -> (r: bool)
    ensures
        r == is_snippet_file(name@, is_file),
{
    if !is_file {
        return false;
    }
    match extension(name) {
        Some(ext) => same_text(&ext, "txt"),
        None => false,
    }
}

impl FolderEntry {
    pub open spec fn is_snippet(self) -> bool {
        is_snippet_file(self.name@, self.is_file)
    }

    /// The stem of the name.
    pub open spec fn stem(self) -> Seq<char> {
        file_stem_text(self.name@)->0
    }

    /// The file holds a snippet, but its name tells no identifier.
    pub open spec fn is_adopted(self) -> bool {
        self.is_snippet() && parsed_stem(self.stem()) is None
    }

    /// The title, the identifier and the content of the snippet that the file
    /// holds. An adopted one gets the identifier `fresh`.
    pub open spec fn snippet(self, fresh: Seq<char>) -> (Seq<char>, Seq<char>, Seq<char>) {
        match parsed_stem(self.stem()) {
            Some((title, id)) => (title, id, self.text@),
            None => (self.stem(), fresh, self.text@),
        }
    }
}

/// Titles, identifiers and contents of snippets.
pub open spec fn snippet_views(snippets: Seq<Snippet>) -> Seq<(Seq<char>, Seq<char>, Seq<char>)> {
    snippets.map_values(|s: Snippet| (s.title@, s.id@, s.content@))
}

/// The snippets of the first `n` files: one of each text file.
pub open spec fn found_in(entries: Seq<FolderEntry>, fresh: Seq<Seq<char>>, n: int) -> Seq<
    (Seq<char>, Seq<char>, Seq<char>),
>
    decreases n,
{
    if n <= 0 {
        Seq::empty()
    } else if entries[n - 1].is_snippet() {
        found_in(entries, fresh, n - 1).push(entries[n - 1].snippet(fresh[n - 1]))
    } else {
        found_in(entries, fresh, n - 1)
    }
}

/// Names and paths, as texts.
pub open spec fn move_views(moves: Seq<(String, String)>) -> Seq<(Seq<char>, Seq<char>)> {
    moves.map_values(|m: (String, String)| (m.0@, m.1@))
}

/// Identifiers, as texts.
pub open spec fn id_views(ids: Seq<EntityId>) -> Seq<Seq<char>> {
    ids.map_values(|id: EntityId| id@)
}

/// Snippets are in the order of their titles.
pub open spec fn in_title_order(snippets: Seq<Snippet>) -> bool {
    forall|i: int, j: int|
        0 <= i < j < snippets.len() ==> !text_less(
            (#[trigger] snippets[j]).title@,
            (#[trigger] snippets[i]).title@,
        )
}

/// The text files of one folder.
#[derive(Debug)]
pub struct SnippetStore {
    folder: String,
}

fn clear_of_separators(s: &str) -> (r: bool)
    ensures
        r == has_no_separator(s@),
{
    let chars = chars_of(s);
    let mut i: usize = 0;
    while i < chars.len()
        invariant
            i <= chars@.len(),
            chars@ == s@,
            forall|j: int|
                0 <= j < i ==> (#[trigger] s@[j]) != '/' && s@[j] != '\\' && s@[j] != '\0',
        decreases chars@.len() - i,
    {
        let c = chars[i];
        if c == '/' || c == '\\' || c == '\0' {
            assert(s@[i as int] == c);
            return false;
        }
        i = i + 1;
    }
    true
}

fn usable_title(title: &str) -> (r: bool)
    ensures
        r == title_ok(title@),
{
    !title.is_empty() && !same_text(title, ".") && !same_text(title, "..") && clear_of_separators(
        title,
    )
}

fn usable_id(id: &str) -> (r: bool)
    ensures
        r == id_ok(id@),
{
    !id.is_empty() && clear_of_separators(id)
}

/// The title and the identifier that the stem of a file name tells.
pub fn parse_file_stem(stem: &str) -> (r: Option<(String, EntityId)>)
    ensures
        match r {
            Some((title, id)) => parsed_stem(stem@) == Some((title@, id@)),
            None => parsed_stem(stem@) is None,
        },
{
    let chars = chars_of(stem);
    let size = chars.len();
    let mut end: usize = size;
    while end >= 2
        invariant
            end <= size,
            size == chars@.len(),
            chars@ == stem@,
            last_dashes(stem@, size as int) == last_dashes(stem@, end as int),
        decreases end,
    {
        if chars[end - 2] == '-' && chars[end - 1] == '-' {
            let at = end - 2;
            if at == 0 {
                return None;
            }
            let id = string_between(&chars, end, size);
            assert(id@ =~= stem@.skip(at + 2));
            if !supported_id(&id) {
                return None;
            }
            let title = string_between(&chars, 0, at);
            assert(title@ =~= stem@.take(at as int));
            return Some((title, EntityId::from_string(&id)));
        }
        end = end - 1;
    }
    None
}

impl SnippetStore {
    /// The folder of the store.
    pub closed spec fn folder_text(&self) -> Seq<char> {
        self.folder@
    }

    /// The store for a folder. The caller creates the folder.
    pub fn open(folder: &str) -> (r: Self)
        ensures
            r.folder_text() == folder@,
    {
        SnippetStore { folder: folder.to_owned() }
    }

    /// The path of the file of a snippet.
    pub open spec fn path_text(&self, title: Seq<char>, id: Seq<char>) -> Result<
        Seq<char>,
        StorageError,
    > {
        if !title_ok(title) {
            Err(StorageError::Title)
        } else if !id_ok(id) {
            Err(StorageError::Id)
        } else {
            Ok(joined_path(self.folder_text(), snippet_file(title, id)))
        }
    }

    /// The path of the file of a snippet.
    pub fn path_for(&self, title: &str, id: &EntityId) -> (r: Result<String, StorageError>)
        ensures
            match r {
                Ok(path) => self.path_text(title@, id@) == Ok::<Seq<char>, StorageError>(path@),
                Err(error) => self.path_text(title@, id@) == Err::<Seq<char>, StorageError>(error),
            },
    {
        if !usable_title(title) {
            return Err(StorageError::Title);
        }
        if !usable_id(id.as_str()) {
            return Err(StorageError::Id);
        }
        let label = join3(title, "--", id.as_str());
        let name = join2(&label, ".txt");
        Ok(join_path(&self.folder, &name))
    }

    /// The path to write the content of a snippet to.
    pub fn save(&self, snippet: &Snippet) -> (r: Result<String, StorageError>)
        ensures
            match r {
                Ok(path) => self.path_text(snippet.title@, snippet.id@) == Ok::<
                    Seq<char>,
                    StorageError,
                >(path@),
                Err(error) => self.path_text(snippet.title@, snippet.id@) == Err::<
                    Seq<char>,
                    StorageError,
                >(error),
            },
    {
        self.path_for(&snippet.title, &snippet.id)
    }

    /// The path of the file to remove for a snippet.
    pub fn remove(&self, snippet: &Snippet) -> (r: Result<String, StorageError>)
        ensures
            match r {
                Ok(path) => self.path_text(snippet.title@, snippet.id@) == Ok::<
                    Seq<char>,
                    StorageError,
                >(path@),
                Err(error) => self.path_text(snippet.title@, snippet.id@) == Err::<
                    Seq<char>,
                    StorageError,
                >(error),
            },
    {
        self.path_for(&snippet.title, &snippet.id)
    }

    /// The file to move for a new title, and where to. There is nothing to move
    /// if both titles give the same file. The identifier stays.
    pub fn rename(&self, id: &EntityId, old_title: &str, new_title: &str) -> (r: Result<
        Option<(String, String)>,
        StorageError,
    >)
        ensures
            match (self.path_text(old_title@, id@), self.path_text(new_title@, id@)) {
                (Err(error), _) => r == Err::<Option<(String, String)>, StorageError>(error),
                (Ok(_), Err(error)) => r == Err::<Option<(String, String)>, StorageError>(error),
                (Ok(from), Ok(to)) => match r {
                    Ok(Some((a, b))) => from != to && a@ == from && b@ == to,
                    Ok(None) => from == to,
                    Err(_) => false,
                },
            },
    {
        let from = match self.path_for(old_title, id) {
            Ok(path) => path,
            Err(error) => {
                return Err(error);
            },
        };
        let to = match self.path_for(new_title, id) {
            Ok(path) => path,
            Err(error) => {
                return Err(error);
            },
        };
        if same_text(&from, &to) {
            Ok(None)
        } else {
            Ok(Some((from, to)))
        }
    }

    /// What is decided on a file of the folder, with `fresh` as the identifier of
    /// an adopted file.
    pub open spec fn plans(
        &self,
        r: Result<LoadPlan, StorageError>,
        name: Seq<char>,
        is_file: bool,
        fresh: Seq<char>,
    ) -> bool {
        if !is_snippet_file(name, is_file) {
            r matches Ok(LoadPlan::Skip)
        } else {
            let stem = file_stem_text(name)->0;
            match parsed_stem(stem) {
                Some((title, id)) => r matches Ok(LoadPlan::Read { title: t, id: i }) && t@
                    == title && i@ == id,
                None => match self.path_text(stem, fresh) {
                    Ok(path) => r matches Ok(LoadPlan::Adopt { title: t, id: i, path: p }) && t@
                        == stem && i@ == fresh && p@ == path,
                    Err(error) => r == Err::<LoadPlan, StorageError>(error),
                },
            }
        }
    }

    /// Decides on a file of the folder. Only text files are loaded. One whose name
    /// tells no identifier is adopted under the identifier `fresh`.
    pub fn load_entry_as(&self, name: &str, is_file: bool, fresh: EntityId) -> (r: Result<
        LoadPlan,
        StorageError,
    >)
        ensures
            self.plans(r, name@, is_file, fresh@),
    {
        if !holds_snippet(name, is_file) {
            return Ok(LoadPlan::Skip);
        }
        let stem = match file_stem(name) {
            Some(stem) => stem,
            None => {
                return Ok(LoadPlan::Skip);
            },
        };
        match parse_file_stem(&stem) {
            Some((title, id)) => Ok(LoadPlan::Read { title, id }),
            None => match self.path_for(&stem, &fresh) {
                Ok(path) => Ok(LoadPlan::Adopt { title: stem, id: fresh, path }),
                Err(error) => Err(error),
            },
        }
    }

    /// Why a file of the folder cannot be adopted: its name would not do.
    pub open spec fn refusal(&self, entry: FolderEntry, fresh: Seq<char>) -> Option<StorageError> {
        if entry.is_adopted() {
            match self.path_text(entry.stem(), fresh) {
                Ok(_) => None,
                Err(error) => Some(error),
            }
        } else {
            None
        }
    }

    /// Why the folder cannot be loaded: the first refusal among the first `n` files.
    pub open spec fn first_refusal(
        &self,
        entries: Seq<FolderEntry>,
        fresh: Seq<Seq<char>>,
        n: int,
    ) -> Option<StorageError>
        decreases n,
    {
        if n <= 0 {
            None
        } else {
            match self.first_refusal(entries, fresh, n - 1) {
                Some(error) => Some(error),
                None => self.refusal(entries[n - 1], fresh[n - 1]),
            }
        }
    }

    /// The adopted files among the first `n`: the name of each, and the path that
    /// it is moved to.
    pub open spec fn moves_in(
        &self,
        entries: Seq<FolderEntry>,
        fresh: Seq<Seq<char>>,
        n: int,
    ) -> Seq<(Seq<char>, Seq<char>)>
        decreases n,
    {
        if n <= 0 {
            Seq::empty()
        } else if entries[n - 1].is_adopted() {
            self.moves_in(entries, fresh, n - 1).push(
                (
                    entries[n - 1].name@,
                    self.path_text(entries[n - 1].stem(), fresh[n - 1])->Ok_0,
                ),
            )
        } else {
            self.moves_in(entries, fresh, n - 1)
        }
    }

    /// The folder was loaded, with `fresh` as the identifiers of adopted files.
    pub open spec fn loaded(
        &self,
        r: Result<(Vec<Snippet>, Vec<(String, String)>), StorageError>,
        entries: Seq<FolderEntry>,
        fresh: Seq<Seq<char>>,
    ) -> bool {
        let n = entries.len() as int;
        match self.first_refusal(entries, fresh, n) {
            Some(error) => r == Err::<(Vec<Snippet>, Vec<(String, String)>), StorageError>(error),
            None => {
                &&& r is Ok
                &&& snippet_views(r->Ok_0.0@).to_multiset() == found_in(
                    entries,
                    fresh,
                    n,
                ).to_multiset()
                &&& in_title_order(r->Ok_0.0@)
                &&& move_views(r->Ok_0.1@) == self.moves_in(entries, fresh, n)
            },
        }
    }

    /// The snippets of the folder, in the order of their titles, and the files to
    /// move. Only text files hold a snippet. A file whose name tells no identifier
    /// is adopted: it gets a fresh one, and a name that tells it.
    pub fn load_all(&self, entries: &Vec<FolderEntry>) -> (r: Result<
        (Vec<Snippet>, Vec<(String, String)>),
        StorageError,
    >)
        ensures
            exists|fresh: Seq<Seq<char>>|
                {
                    &&& fresh.len() == entries@.len()
                    &&& forall|i: int| 0 <= i < fresh.len() ==> is_compact_id(#[trigger] fresh[i])
                    &&& #[trigger] self.loaded(r, entries@, fresh)
                },
    {
        let mut fresh: Vec<EntityId> = Vec::new();
        while fresh.len() < entries.len()
            invariant
                fresh@.len() <= entries@.len(),
                forall|i: int| 0 <= i < fresh@.len() ==> is_compact_id((#[trigger] fresh@[i])@),
            decreases entries@.len() - fresh@.len(),
        {
            fresh.push(EntityId::new());
        }
        self.load_all_as(entries, &fresh)
    }

    /// [`load_all`](Self::load_all) with the given identifiers, one for each file.
    pub fn load_all_as(&self, entries: &Vec<FolderEntry>, fresh: &Vec<EntityId>) -> (r: Result<
        (Vec<Snippet>, Vec<(String, String)>),
        StorageError,
    >)
        requires
            fresh@.len() == entries@.len(),
        ensures
            self.loaded(r, entries@, id_views(fresh@)),
    {
        let ghost ids = id_views(fresh@);
        let ghost all = entries@;
        let mut found: Vec<Snippet> = Vec::new();
        let mut moves: Vec<(String, String)> = Vec::new();
        let mut i: usize = 0;
        assert(snippet_views(found@) =~= found_in(all, ids, 0));
        assert(move_views(moves@) =~= self.moves_in(all, ids, 0));
        while i < entries.len()
            invariant
                i <= entries@.len() == fresh@.len(),
                all == entries@,
                ids == id_views(fresh@),
                self.first_refusal(all, ids, i as int) is None,
                snippet_views(found@) == found_in(all, ids, i as int),
                move_views(moves@) == self.moves_in(all, ids, i as int),
            decreases entries@.len() - i,
        {
            let entry = &entries[i];
            let ghost found_before = found@;
            let ghost moves_before = moves@;
            match self.load_entry_as(&entry.name, entry.is_file, fresh[i].clone()) {
                Ok(LoadPlan::Skip) => {},
                Ok(LoadPlan::Read { title, id }) => {
                    let snippet = Snippet { id, title, content: entry.text.clone() };
                    let ghost one = (snippet.title@, snippet.id@, snippet.content@);
                    found.push(snippet);
                    assert(snippet_views(found@) =~= snippet_views(found_before).push(one));
                },
                Ok(LoadPlan::Adopt { title, id, path }) => {
                    let snippet = Snippet { id, title, content: entry.text.clone() };
                    let ghost one = (snippet.title@, snippet.id@, snippet.content@);
                    found.push(snippet);
                    let moved = (entry.name.clone(), path);
                    let ghost way = (moved.0@, moved.1@);
                    moves.push(moved);
                    assert(snippet_views(found@) =~= snippet_views(found_before).push(one));
                    assert(move_views(moves@) =~= move_views(moves_before).push(way));
                },
                Err(error) => {
                    proof {
                        self.refusal_stays(all, ids, i + 1, all.len() as int);
                    }
                    return Err(error);
                },
            }
            i = i + 1;
        }
        Ok((sort_by_title(found), moves))
    }

    proof fn refusal_stays(&self, entries: Seq<FolderEntry>, fresh: Seq<Seq<char>>, i: int, n: int)
        requires
            i <= n,
            self.first_refusal(entries, fresh, i) is Some,
        ensures
            self.first_refusal(entries, fresh, n) == self.first_refusal(entries, fresh, i),
        decreases n - i,
    {
        if i < n {
            self.refusal_stays(entries, fresh, i, n - 1);
        }
    }
}

/// The snippets in the order of their titles.
fn sort_by_title(found: Vec<Snippet>) -> (r: Vec<Snippet>)
    ensures
        snippet_views(r@).to_multiset() == snippet_views(found@).to_multiset(),
        in_title_order(r@),
{
    let ghost all = snippet_views(found@).to_multiset();
    let mut rest = found;
    let mut sorted: Vec<Snippet> = Vec::new();
    proof {
        broadcast use vstd::seq_lib::group_to_multiset_ensures;

        assert(snippet_views(sorted@) =~= Seq::empty());
        assert(snippet_views(sorted@).to_multiset() =~= vstd::multiset::Multiset::empty());
    }
    while rest.len() > 0
        invariant
            in_title_order(sorted@),
            snippet_views(sorted@).to_multiset().add(snippet_views(rest@).to_multiset()) =~= all,
        decreases rest@.len(),
    {
        broadcast use vstd::seq_lib::group_to_multiset_ensures;

        let ghost before = rest@;
        let ghost done = sorted@;
        let snippet = rest.remove(0);
        let mut at: usize = sorted.len();
        while at > 0 && before_title(&snippet, &sorted[at - 1])
            invariant
                at <= sorted@.len(),
                in_title_order(sorted@),
                forall|j: int|
                    at <= j < sorted@.len() ==> text_less(
                        snippet.title@,
                        (#[trigger] sorted@[j]).title@,
                    ),
            decreases at,
        {
            at = at - 1;
        }
        let ghost one = (snippet.title@, snippet.id@, snippet.content@);
        proof {
            insert_in_order(sorted@, at as int, snippet);
            vstd::seq_lib::to_multiset_remove(snippet_views(before), 0);
            vstd::seq_lib::to_multiset_insert(snippet_views(done), at as int, one);
            assert(snippet_views(rest@) =~= snippet_views(before).remove(0));
            assert(snippet_views(before)[0] == one);
        }
        sorted.insert(at, snippet);
        assert(snippet_views(sorted@) =~= snippet_views(done).insert(at as int, one));
    }
    proof {
        broadcast use vstd::seq_lib::group_to_multiset_ensures;

        assert(snippet_views(rest@) =~= Seq::empty());
        assert(snippet_views(sorted@).to_multiset() =~= all);
    }
    sorted
}

fn before_title(a: &Snippet, b: &Snippet) -> (r: bool)
    ensures
        r == text_less(a.title@, b.title@),
{
    proof {
        text_less_irreflexive(a.title@);
        if text_less(a.title@, b.title@) && text_less(b.title@, a.title@) {
            text_less_transitive(a.title@, b.title@, a.title@);
        }
    }
    match order_texts(&a.title, &b.title) {
        TextOrder::Less => true,
        _ => false,
    }
}

proof fn insert_in_order(sorted: Seq<Snippet>, at: int, snippet: Snippet)
    requires
        0 <= at <= sorted.len(),
        in_title_order(sorted),
        forall|j: int|
            at <= j < sorted.len() ==> text_less(snippet.title@, (#[trigger] sorted[j]).title@),
        at > 0 ==> !text_less(snippet.title@, sorted[at - 1].title@),
    ensures
        in_title_order(sorted.insert(at, snippet)),
{
    let s = sorted.insert(at, snippet);
    assert forall|i: int, j: int| 0 <= i < j < s.len() implies !text_less(
        (#[trigger] s[j]).title@,
        (#[trigger] s[i]).title@,
    ) by {
        let x = snippet.title@;
        if i == at {
            let y = s[j].title@;
            assert(s[j] == sorted[j - 1]);
            if text_less(y, x) {
                text_less_transitive(x, y, x);
                text_less_irreflexive(x);
            }
        } else if j == at {
            let y = s[i].title@;
            assert(s[i] == sorted[i]);
            let z = sorted[at - 1].title@;
            if text_less(x, y) {
                if i < at - 1 {
                    assert(!text_less(z, y));
                    text_less_total(z, y);
                    if text_less(y, z) {
                        text_less_transitive(x, y, z);
                    }
                }
            }
        } else {
            let a = if i < at {
                i
            } else {
                i - 1
            };
            let b = if j < at {
                j
            } else {
                j - 1
            };
            assert(s[i] == sorted[a]);
            assert(s[j] == sorted[b]);
        }
    }
}

proof fn last_dashes_at(s: Seq<char>, at: int, end: int)
    requires
        0 <= at,
        at + 2 <= end <= s.len(),
        s[at] == '-',
        s[at + 1] == '-',
        forall|i: int| at + 2 <= i < end ==> s[i] != '-',
    ensures
        last_dashes(s, end) == at,
    decreases end,
{
    if end > at + 2 {
        last_dashes_at(s, at, end - 1);
    }
}

/// An identifier that the store supports holds no dash, dot or separator.
proof fn supported_is_plain(id: Seq<char>)
    requires
        is_supported(id),
    ensures
        id_ok(id),
        forall|i: int| 0 <= i < id.len() ==> (#[trigger] id[i]) != '-' && id[i] != '.',
{
    assert forall|i: int| 0 <= i < id.len() implies (#[trigger] id[i]) != '-' && id[i] != '.'
        && id[i] != '/' && id[i] != '\\' && id[i] != '\0' by {}
}

/// A snippet is found under the name that it is saved under: the file is a text
/// file, and its name tells the title and the identifier.
pub proof fn saved_snippets_are_found(title: Seq<char>, id: Seq<char>)
    requires
        title_ok(title),
        is_supported(id),
    ensures
        extension_of(snippet_file(title, id)) == Some("txt"@),
        parsed_stem(stem_of(snippet_file(title, id))) == Some((title, id)),
{
    reveal_strlit("--");
    reveal_strlit(".txt");
    reveal_strlit("txt");
    supported_is_plain(id);
    let label = file_label(title, id);
    let n = label.len() as int;
    let file = snippet_file(title, id);
    last_dot_is(file, n);
    assert(file.take(n) =~= label);
    assert(file.skip(n + 1) =~= "txt"@);
    assert forall|i: int| title.len() + 2 <= i < n implies label[i] != '-' by {
        assert(label[i] == id[i - title.len() - 2]);
    }
    last_dashes_at(label, title.len() as int, n);
    assert(label.take(title.len() as int) =~= title);
    assert(label.skip(title.len() as int + 2) =~= id);
}

/// Two snippets share a file only if they share title and identifier.
pub proof fn files_tell_snippets_apart(
    title: Seq<char>,
    id: Seq<char>,
    other_title: Seq<char>,
    other_id: Seq<char>,
)
    requires
        title_ok(title),
        is_supported(id),
        title_ok(other_title),
        is_supported(other_id),
        snippet_file(title, id) == snippet_file(other_title, other_id),
    ensures
        title == other_title,
        id == other_id,
{
    saved_snippets_are_found(title, id);
    saved_snippets_are_found(other_title, other_id);
}

/// The file of a snippet lies in the folder of the store: its name holds no
/// separator, and it is the name that the path leads to.
pub proof fn files_stay_in_the_folder(store: SnippetStore, title: Seq<char>, id: Seq<char>)
    requires
        title_ok(title),
        id_ok(id),
    ensures
        has_no_separator(snippet_file(title, id)),
        file_name_text(store.path_text(title, id)->Ok_0) == Some(snippet_file(title, id)),
{
    reveal_strlit("--");
    reveal_strlit(".txt");
    let label = file_label(title, id);
    let n = label.len() as int;
    assert forall|i: int| 0 <= i < n implies (#[trigger] label[i]) != '/' && label[i] != '\\'
        && label[i] != '\0' by {
        if i < title.len() {
            assert(label[i] == title[i]);
        } else if i >= title.len() + 2 {
            assert(label[i] == id[i - title.len() - 2]);
        }
    }
    let file = snippet_file(title, id);
    assert forall|i: int| 0 <= i < file.len() implies (#[trigger] file[i]) != '/' && file[i] != '\\'
        && file[i] != '\0' by {
        if i < n {
            assert(file[i] == label[i]);
        }
    }
    reveal_strlit("/");
    let base = store.folder_text();
    let path = joined_path(base, file);
    let end = path.len() as int;
    let start = end - file.len();
    assert(path.subrange(start, end) =~= file);
    assert forall|i: int| start <= i < end implies path[i] != '/' by {
        assert(path[i] == file[i - start]);
    }
    crate::data::paths::component_start_bounds(path, end);
    let begin = crate::data::paths::component_start(path, end);
    if begin > 0 {
        assert(begin <= start);
    }
    if begin < start {
        assert(path[start - 1] == '/');
    }
    assert(file.len() >= 4);
}

/// The file after the folder was loaded: an adopted one has its new name.
pub open spec fn settled(after: FolderEntry, before: FolderEntry, fresh: Seq<char>) -> bool {
    &&& after.is_file == before.is_file
    &&& after.text@ == before.text@
    &&& after.name@ == if before.is_adopted() {
        snippet_file(before.stem(), fresh)
    } else {
        before.name@
    }
}

/// A file that was settled holds the same snippet, and is not adopted again.
proof fn settled_file_stays(
    store: SnippetStore,
    after: FolderEntry,
    before: FolderEntry,
    fresh: Seq<char>,
    later: Seq<char>,
)
    requires
        settled(after, before, fresh),
        is_compact_id(fresh),
        store.refusal(before, fresh) is None,
    ensures
        after.is_snippet() == before.is_snippet(),
        before.is_snippet() ==> after.snippet(later) == before.snippet(fresh),
        !after.is_adopted(),
{
    if before.is_adopted() {
        let title = before.stem();
        let file = snippet_file(title, fresh);
        saved_snippets_are_found(title, fresh);
        supported_is_plain(fresh);
        files_stay_in_the_folder(store, title, fresh);
        reveal_strlit(".txt");
        reveal_strlit("--");
        assert(file.len() > 2);
        plain_name_is_file_name(file);
        assert(after.stem() == stem_of(file));
    }
}

proof fn settled_folder_stays(
    store: SnippetStore,
    before: Seq<FolderEntry>,
    fresh: Seq<Seq<char>>,
    after: Seq<FolderEntry>,
    later: Seq<Seq<char>>,
    n: int,
)
    requires
        0 <= n <= before.len(),
        before.len() == fresh.len(),
        before.len() == after.len(),
        before.len() == later.len(),
        forall|i: int| 0 <= i < fresh.len() ==> is_compact_id(#[trigger] fresh[i]),
        forall|i: int|
            0 <= i < before.len() ==> settled(#[trigger] after[i], before[i], fresh[i]),
        store.first_refusal(before, fresh, n) is None,
    ensures
        found_in(after, later, n) == found_in(before, fresh, n),
        store.first_refusal(after, later, n) is None,
        store.moves_in(after, later, n).len() == 0,
    decreases n,
{
    if n > 0 {
        settled_folder_stays(store, before, fresh, after, later, n - 1);
        assert(settled(after[n - 1], before[n - 1], fresh[n - 1]));
        assert(is_compact_id(fresh[n - 1]));
        settled_file_stays(store, after[n - 1], before[n - 1], fresh[n - 1], later[n - 1]);
    }
}

/// A second load of a folder finds the snippets that the first one found, and
/// moves no file, whatever identifiers are drawn for it.
pub proof fn folders_load_the_same_again(
    store: SnippetStore,
    first: Result<(Vec<Snippet>, Vec<(String, String)>), StorageError>,
    before: Seq<FolderEntry>,
    fresh: Seq<Seq<char>>,
    second: Result<(Vec<Snippet>, Vec<(String, String)>), StorageError>,
    after: Seq<FolderEntry>,
    later: Seq<Seq<char>>,
)
    requires
        before.len() == fresh.len(),
        before.len() == after.len(),
        before.len() == later.len(),
        forall|i: int| 0 <= i < fresh.len() ==> is_compact_id(#[trigger] fresh[i]),
        store.loaded(first, before, fresh),
        first is Ok,
        forall|i: int|
            0 <= i < before.len() ==> settled(#[trigger] after[i], before[i], fresh[i]),
        store.loaded(second, after, later),
    ensures
        second is Ok,
        snippet_views(second->Ok_0.0@).to_multiset() == snippet_views(
            first->Ok_0.0@,
        ).to_multiset(),
        second->Ok_0.1@.len() == 0,
{
    let n = before.len() as int;
    settled_folder_stays(store, before, fresh, after, later, n);
    assert(move_views(second->Ok_0.1@).len() == second->Ok_0.1@.len());
}

/// Every text file of a folder gives a snippet, and nothing else does, in order.
pub proof fn every_text_file_is_loaded(entries: Seq<FolderEntry>, fresh: Seq<Seq<char>>, n: int) -> (at: Seq<int>)
    requires
        0 <= n <= entries.len(),
    ensures
        at.len() == found_in(entries, fresh, n).len(),
        forall|j: int|
            #![trigger at[j]]
            0 <= j < at.len() ==> 0 <= at[j] < n && entries[at[j]].is_snippet() && found_in(entries, fresh, n)[j] == entries[at[j]].snippet(fresh[at[j]]),
        forall|i: int, j: int| 0 <= i < j < at.len() ==> at[i] < at[j],
        forall|k: int|
            #![trigger entries[k]]
            0 <= k < n && entries[k].is_snippet() ==> at.contains(k),
    decreases n,
{
    if n == 0 {
        Seq::empty()
    } else {
        let before = every_text_file_is_loaded(entries, fresh, n - 1);
        let at = if entries[n - 1].is_snippet() {
            before.push(n - 1)
        } else {
            before
        };
        assert forall|j: int|
            #![trigger at[j]]
            0 <= j < at.len() implies 0 <= at[j] < n && entries[at[j]].is_snippet() && found_in(entries, fresh, n)[j] == entries[at[j]].snippet(fresh[at[j]]) by {
            if j < before.len() {
                assert(at[j] == before[j]);
            }
        }
        assert forall|k: int|
            #![trigger entries[k]]
            0 <= k < n && entries[k].is_snippet() implies at.contains(k) by {
            if k < n - 1 {
                let j = choose|j: int| 0 <= j < before.len() && before[j] == k;
                assert(at[j] == k);
            } else {
                assert(at[before.len() as int] == n - 1);
            }
        }
        at
    }
}

proof fn first_refusal_means(
    store: SnippetStore,
    entries: Seq<FolderEntry>,
    fresh: Seq<Seq<char>>,
    n: int,
)
    requires
        0 <= n <= entries.len(),
    ensures
        store.first_refusal(entries, fresh, n) is None <==> forall|i: int|
            0 <= i < n ==> ((#[trigger] entries[i]).is_adopted() ==> title_ok(entries[i].stem())
                && id_ok(fresh[i])),
    decreases n,
{
    if n > 0 {
        first_refusal_means(store, entries, fresh, n - 1);
        if store.first_refusal(entries, fresh, n - 1) is Some {
            let i = choose|i: int|
                0 <= i < n - 1 && !((#[trigger] entries[i]).is_adopted() ==> title_ok(
                    entries[i].stem(),
                ) && id_ok(fresh[i]));
            assert(0 <= i < n);
        }
    }
}

/// A folder loads exactly if each text file that has no identifier in its name can
/// get one: its name is a title, and the identifier is a good one.
pub proof fn folders_load_unless_refused(
    store: SnippetStore,
    r: Result<(Vec<Snippet>, Vec<(String, String)>), StorageError>,
    entries: Seq<FolderEntry>,
    fresh: Seq<Seq<char>>,
)
    requires
        store.loaded(r, entries, fresh),
    ensures
        r is Ok <==> forall|i: int|
            0 <= i < entries.len() && (#[trigger] entries[i]).is_file && extension_text(
                entries[i].name@,
            ) == Some("txt"@) && parsed_stem(entries[i].stem()) is None ==> title_ok(
                entries[i].stem(),
            ) && id_ok(fresh[i]),
{
    first_refusal_means(store, entries, fresh, entries.len() as int);
}

/// Each text file without an identifier in its name is moved, in order, to the name
/// made of its own and its new identifier, in the same folder. No other file is.
pub proof fn files_get_identifiers(
    store: SnippetStore,
    entries: Seq<FolderEntry>,
    fresh: Seq<Seq<char>>,
    n: int,
) -> (at: Seq<int>)
    requires
        0 <= n <= entries.len(),
        store.first_refusal(entries, fresh, n) is None,
    ensures
        at.len() == store.moves_in(entries, fresh, n).len(),
        forall|j: int|
            #![trigger at[j]]
            0 <= j < at.len() ==> {
                &&& 0 <= at[j] < n
                &&& entries[at[j]].is_file
                &&& extension_text(entries[at[j]].name@) == Some("txt"@)
                &&& parsed_stem(entries[at[j]].stem()) is None
                &&& store.moves_in(entries, fresh, n)[j] == (
                    entries[at[j]].name@,
                    joined_path(
                        store.folder_text(),
                        entries[at[j]].stem() + "--"@ + fresh[at[j]] + ".txt"@,
                    ),
                )
            },
        forall|i: int, j: int| 0 <= i < j < at.len() ==> at[i] < at[j],
        forall|k: int|
            #![trigger entries[k]]
            0 <= k < n && entries[k].is_file && extension_text(entries[k].name@) == Some("txt"@)
                && parsed_stem(entries[k].stem()) is None ==> at.contains(k),
    decreases n,
{
    if n == 0 {
        Seq::empty()
    } else {
        let before = files_get_identifiers(store, entries, fresh, n - 1);
        let last = entries[n - 1];
        let at = if last.is_adopted() {
            before.push(n - 1)
        } else {
            before
        };
        let moves = store.moves_in(entries, fresh, n);
        assert forall|j: int| #![trigger at[j]] 0 <= j < at.len() implies {
            &&& 0 <= at[j] < n
            &&& entries[at[j]].is_file
            &&& extension_text(entries[at[j]].name@) == Some("txt"@)
            &&& parsed_stem(entries[at[j]].stem()) is None
            &&& moves[j] == (
                entries[at[j]].name@,
                joined_path(
                    store.folder_text(),
                    entries[at[j]].stem() + "--"@ + fresh[at[j]] + ".txt"@,
                ),
            )
        } by {
            if j < before.len() {
                assert(at[j] == before[j]);
            } else {
                assert(store.refusal(last, fresh[n - 1]) is None);
            }
        }
        assert forall|k: int|
            #![trigger entries[k]]
            0 <= k < n && entries[k].is_file && extension_text(entries[k].name@) == Some("txt"@)
                && parsed_stem(entries[k].stem()) is None implies at.contains(k) by {
            if k < n - 1 {
                let j = choose|j: int| 0 <= j < before.len() && before[j] == k;
                assert(at[j] == k);
            } else {
                assert(at[before.len() as int] == n - 1);
            }
        }
        at
    }
}

proof fn no_dashes(s: Seq<char>, end: int)
    requires
        0 <= end <= s.len(),
        forall|i: int| 0 <= i < end - 1 ==> !(#[trigger] s[i] == '-' && s[i + 1] == '-'),
    ensures
        last_dashes(s, end) == -1,
    decreases end,
{
    if end >= 2 {
        assert(!(s[end - 2] == '-' && s[end - 2 + 1] == '-'));
        no_dashes(s, end - 1);
    }
}

/// A text file whose name has no two dashes in a row is a snippet without an
/// identifier: its whole name is the title.
pub proof fn plain_names_are_titles(entry: FolderEntry, fresh: Seq<char>)
    requires
        forall|i: int|
            0 <= i < entry.stem().len() - 1 ==> !(#[trigger] entry.stem()[i] == '-'
                && entry.stem()[i + 1] == '-'),
    ensures
        entry.snippet(fresh) == (entry.stem(), fresh, entry.text@),
{
    no_dashes(entry.stem(), entry.stem().len() as int);
}

/// A file that was saved for a snippet is read as that snippet: its name tells the title
/// and the identifier.
pub proof fn saved_files_are_read(
    store: SnippetStore,
    r: Result<LoadPlan, StorageError>,
    title: Seq<char>,
    id: Seq<char>,
    fresh: Seq<char>,
)
    requires
        store.plans(r, snippet_file(title, id), true, fresh),
        title_ok(title),
        is_supported(id),
    ensures
        r matches Ok(LoadPlan::Read { title: t, id: i }) && t@ == title && i@ == id,
{
    saved_snippets_are_found(title, id);
    supported_is_plain(id);
    reveal_strlit("--");
    reveal_strlit(".txt");
    let name = snippet_file(title, id);
    assert forall|i: int| 0 <= i < name.len() implies name[i] != '/' by {
        if i < title.len() {
            assert(name[i] == title[i]);
        } else if title.len() + 2 <= i < title.len() + 2 + id.len() {
            assert(name[i] == id[i - title.len() - 2]);
        }
    }
    assert(name.len() > 2);
    plain_name_is_file_name(name);
}

/// What is no text file is left alone.
pub proof fn other_files_are_left_alone(
    store: SnippetStore,
    r: Result<LoadPlan, StorageError>,
    name: Seq<char>,
    is_file: bool,
    fresh: Seq<char>,
)
    requires
        store.plans(r, name, is_file, fresh),
    ensures
        !is_file || extension_text(name) != Some("txt"@) <==> r matches Ok(LoadPlan::Skip),
        r matches Ok(LoadPlan::Adopt { title, id, path }) ==> {
            &&& title@ == file_stem_text(name)->0
            &&& id@ == fresh
            &&& path@ == joined_path(store.folder_text(), title@ + "--"@ + fresh + ".txt"@)
        },
{
}

} // verus!
