//! The file manager over a user's home directory: request paths, directory
//! listings and the answers to creating, uploading and deleting files.

use vstd::prelude::*;
use crate::models::{ActiveSession, opt_view};
use crate::text::{split_on, lemma_split_on_nonempty};

verus! {

/// `parts` joined by '/'.
pub open spec fn join_slash(parts: Seq<Seq<char>>) -> Seq<char>
    decreases parts.len(),
{
    if parts.len() == 0 {
        Seq::empty()
    } else if parts.len() == 1 {
        parts[0]
    } else {
        join_slash(parts.drop_last()) + seq!['/'] + parts.last()
    }
}

/// Joining one more part adds '/' and the part (or is the part alone).
pub proof fn lemma_join_slash_push(parts: Seq<Seq<char>>, p: Seq<char>)
    ensures
        join_slash(parts.push(p)) == if parts.len() == 0 {
            p
        } else {
            join_slash(parts) + seq!['/'] + p
        },
{
    assert(parts.push(p).drop_last() =~= parts);
    if parts.len() == 0 {
        assert(parts.push(p)[0] == p);
    }
}

/// A path segment as a request can carry it: not empty, not starting with
/// '.' (so neither "." nor ".."), without '/'.
pub open spec fn valid_segment(s: Seq<char>) -> bool {
    &&& s.len() > 0
    &&& s[0] != '.'
    &&& forall|i: int| 0 <= i < s.len() ==> s[i] != '/'
}

/// A segment is valid exactly when it is not empty, does not start with
/// '.', and holds no '/': every other character (letters of either case,
/// digits, spaces, dots after the first) is allowed.
pub proof fn lemma_valid_segment_exactly(s: Seq<char>)
    ensures
        valid_segment(s) <==> (s.len() > 0 && s[0] != '.' && forall|k: int| 0 <= k < s.len() ==> s[k] != '/'),
{
}

/// The path a file-manager request names, below the user's home directory,
/// as its list of segments.
pub struct RequestPath {
    segments: Vec<String>,
}

impl View for RequestPath {
    type V = Seq<Seq<char>>;

    closed spec fn view(&self) -> Seq<Seq<char>> {
        self.segments@.map_values(|s: String| s@)
    }
}

impl RequestPath {
    /// The segments are valid (see `valid_segment`).
    #[verifier::type_invariant]
    closed spec fn segments_valid(self) -> bool {
        forall|i: int| 0 <= i < self.segments@.len() ==> valid_segment(#[trigger] self.segments@[i]@)
    }

    /// The path of these segments, if each is valid.
    pub fn from_segments(segments: Vec<String>) -> (p: Option<RequestPath>)
        ensures
            p is Some <==> forall|i: int| 0 <= i < segments@.len() ==> valid_segment(#[trigger] segments@[i]@),
            p is Some <==> forall|i: int|
                0 <= i < segments@.len() ==> (#[trigger] segments@[i])@.len() > 0 && segments@[i]@[0] != '.'
                    && forall|k: int| 0 <= k < segments@[i]@.len() ==> segments@[i]@[k] != '/',
            p matches Some(path) ==> path@ == segments@.map_values(|s: String| s@),
    {
        proof {
            assert forall|s: Seq<char>| valid_segment(s) == (s.len() > 0 && s[0] != '.' && forall|k: int| 0 <= k < s.len() ==> s[k] != '/') by {
                lemma_valid_segment_exactly(s);
            }
        }
        let mut i: usize = 0;
        while i < segments.len()
            invariant
                i <= segments.len(),
                forall|j: int| 0 <= j < i ==> valid_segment(#[trigger] segments@[j]@),
            decreases segments.len() - i,
        {
            let s = segments[i].as_str();
            let n = s.unicode_len();
            if n == 0 || s.get_char(0) == '.' {
                assert(!valid_segment(segments@[i as int]@));
                return None;
            }
            let mut k: usize = 0;
            while k < n
                invariant
                    i < segments.len(),
                    forall|j: int| 0 <= j < i ==> valid_segment(#[trigger] segments@[j]@),
                    n == s@.len(),
                    n > 0 && s@[0] != '.',
                    s@ == segments@[i as int]@,
                    k <= n,
                    forall|j: int| 0 <= j < k ==> s@[j] != '/',
                decreases n - k,
            {
                if s.get_char(k) == '/' {
                    assert(!valid_segment(segments@[i as int]@));
                    return None;
                }
                k = k + 1;
            }
            i = i + 1;
        }
        Some(RequestPath { segments })
    }

    /// The root of the home directory: no segments.
    pub fn root() -> (p: RequestPath)
        ensures
            p@ == Seq::<Seq<char>>::empty(),
    {
        let p = RequestPath { segments: Vec::new() };
        assert(p@ =~= Seq::<Seq<char>>::empty());
        p
    }

    /// The number of segments.
    pub fn len(&self) -> (n: usize)
        ensures
            n == self@.len(),
    {
        self.segments.len()
    }

    /// The path as text: its segments joined by '/' (empty for the root).
    pub fn to_path_string(&self) -> (s: String)
        ensures
            s@ == join_slash(self@),
    {
        let mut s = String::new();
        let mut i: usize = 0;
        let ghost segs = self@;
        assert(segs.take(0) =~= Seq::<Seq<char>>::empty());
        while i < self.segments.len()
            invariant
                i <= self.segments.len(),
                segs == self@,
                segs.len() == self.segments@.len(),
                s@ == join_slash(segs.take(i as int)),
            decreases self.segments.len() - i,
        {
            proof {
                assert(segs.take(i + 1) =~= segs.take(i as int).push(segs[i as int]));
                lemma_join_slash_push(segs.take(i as int), segs[i as int]);
                assert(segs[i as int] == self.segments@[i as int]@);
            }
            let ghost before = s@;
            if i > 0 {
                s.append("/");
                proof {
                    reveal_strlit("/");
                }
            }
            s.append(self.segments[i].as_str());
            assert(s@ =~= join_slash(segs.take(i + 1)));
            i = i + 1;
        }
        assert(segs.take(self.segments.len() as int) =~= segs);
        s
    }
}

/// The path without its last `subentrys` segments.
pub fn strip_from_path(path: &RequestPath, subentrys: u32) -> (p: RequestPath)
    requires
        subentrys <= path@.len(),
    ensures
        p@ == path@.take(path@.len() - subentrys),
{
    proof {
        use_type_invariant(path);
    }
    let keep = path.segments.len() - subentrys as usize;
    let mut segments: Vec<String> = Vec::new();
    let mut i: usize = 0;
    while i < keep
        invariant
            keep <= path.segments@.len(),
            i <= keep,
            segments@.len() == i,
            forall|j: int| 0 <= j < i ==> #[trigger] segments@[j] == path.segments@[j],
            forall|j: int| 0 <= j < path.segments@.len() ==> valid_segment(#[trigger] path.segments@[j]@),
        decreases keep - i,
    {
        segments.push(path.segments[i].clone());
        i = i + 1;
    }
    let p = RequestPath { segments };
    assert(p@ =~= path@.take(path@.len() - subentrys));
    p
}

/// How `Path::join` appends `part` to `base` on Unix: an absolute `part`
/// (starting with '/') replaces `base`; otherwise a '/' goes between them
/// unless `base` is empty or already ends in '/'.
pub open spec fn spec_join_path(base: Seq<char>, part: Seq<char>) -> Seq<char> {
    if part.len() > 0 && part[0] == '/' {
        part
    } else if base.len() > 0 && base.last() != '/' {
        base + seq!['/'] + part
    } else {
        base + part
    }
}

/// Appends `part` to the file system path `base` (see `spec_join_path`).
pub fn join_path(base: &str, part: &str) -> (s: String)
    ensures
        s@ == spec_join_path(base@, part@),
{
    let pn = part.unicode_len();
    if pn > 0 && part.get_char(0) == '/' {
        return String::from_str(part);
    }
    let bn = base.unicode_len();
    let mut s = String::from_str(base);
    if bn > 0 && base.get_char(bn - 1) != '/' {
        s.append("/");
        proof {
            reveal_strlit("/");
        }
        s.append(part);
        assert(s@ =~= base@ + seq!['/'] + part@);
        s
    } else {
        s.append(part);
        s
    }
}

/// Proof that the requesting user has a running session.
pub struct ActiveSessionConstructorGuard {
    pub _id: Vec<i32>,
}

impl ActiveSessionConstructorGuard {
    /// The guard for a user's sessions: the ids of all of them, in order;
    /// none when the user has no session.
    pub fn from_sessions(sessions: &Vec<ActiveSession>) -> (g: Option<ActiveSessionConstructorGuard>)
        ensures
            g is Some <==> sessions@.len() > 0,
            g matches Some(guard) ==> guard._id@ == sessions@.map_values(|s: ActiveSession| s.id),
    {
        if sessions.len() == 0 {
            return None;
        }
        let mut ids: Vec<i32> = Vec::new();
        let mut i: usize = 0;
        while i < sessions.len()
            invariant
                i <= sessions.len(),
                ids@ =~= sessions@.take(i as int).map_values(|s: ActiveSession| s.id),
            decreases sessions.len() - i,
        {
            ids.push(sessions[i].id);
            i = i + 1;
            assert(ids@ =~= sessions@.take(i as int).map_values(|s: ActiveSession| s.id));
        }
        assert(sessions@.take(i as int) =~= sessions@);
        Some(ActiveSessionConstructorGuard { _id: ids })
    }
}

/// The home directories of all users.
pub const USER_HOMES: &'static str = "./data/user-home/";

/// A user name that names a directory of its own directly below
/// `USER_HOMES`: not empty, not "." or "..", and without '/'.
pub open spec fn is_home_name(s: Seq<char>) -> bool {
    &&& s.len() > 0
    &&& s != seq!['.']
    &&& s != seq!['.', '.']
    &&& forall|i: int| 0 <= i < s.len() ==> s[i] != '/'
}

/// A home name that can also stand in a volume mount: one without ':',
/// where Docker splits a mount's source from its target.
pub open spec fn is_mountable_home_name(s: Seq<char>) -> bool {
    &&& is_home_name(s)
    &&& forall|i: int| 0 <= i < s.len() ==> s[i] != ':'
}

/// Whether `c` occurs in `s`.
fn has_char(s: &str, c: char) -> (r: bool)
    ensures
        r == exists|i: int| 0 <= i < s@.len() && s@[i] == c,
{
    let n = s.unicode_len();
    let mut k: usize = 0;
    while k < n
        invariant
            n == s@.len(),
            k <= n,
            forall|j: int| 0 <= j < k ==> s@[j] != c,
        decreases n - k,
    {
        if s.get_char(k) == c {
            return true;
        }
        k = k + 1;
    }
    false
}

/// Whether `name` is a home name (`is_home_name`).
pub fn home_name_ok(name: &str) -> (r: bool)
    ensures
        r == is_home_name(name@),
{
    let n = name.unicode_len();
    if n == 0 {
        return false;
    }
    if n == 1 && name.get_char(0) == '.' {
        assert(name@ =~= seq!['.']);
        return false;
    }
    if n == 2 && name.get_char(0) == '.' && name.get_char(1) == '.' {
        assert(name@ =~= seq!['.', '.']);
        return false;
    }
    assert(name@ != seq!['.']) by {
        if n == 1 {
            assert(name@[0] != seq!['.'][0]);
        }
    }
    assert(name@ != seq!['.', '.']) by {
        if n == 2 {
            assert(name@[0] != seq!['.', '.'][0] || name@[1] != seq!['.', '.'][1]);
        }
    }
    !has_char(name, '/')
}

/// Whether `name` is a mountable home name (`is_mountable_home_name`).
pub fn mountable_home_name_ok(name: &str) -> (r: bool)
    ensures
        r == is_mountable_home_name(name@),
        r == (name@.len() > 0 && name@ != seq!['.'] && name@ != seq!['.', '.'] && forall|i: int|
            0 <= i < name@.len() ==> name@[i] != '/' && name@[i] != ':'),
{
    proof {
        lemma_mountable_home_name_exactly(name@);
    }
    home_name_ok(name) && !has_char(name, ':')
}

/// A name is a home name exactly when it is not empty, not "." or "..",
/// and holds no '/'; any other character, upper-case letters, spaces,
/// ':' and a leading '.' included, is allowed.
pub proof fn lemma_home_name_exactly(s: Seq<char>)
    ensures
        is_home_name(s) <==> (s.len() > 0 && s != seq!['.'] && s != seq!['.', '.'] && forall|i: int|
            0 <= i < s.len() ==> s[i] != '/'),
{
}

/// A name can be mounted exactly when it is not empty, not "." or "..",
/// and holds neither '/' nor ':'; any other character, upper-case letters
/// included, is allowed.
pub proof fn lemma_mountable_home_name_exactly(s: Seq<char>)
    ensures
        is_mountable_home_name(s) <==> (s.len() > 0 && s != seq!['.'] && s != seq!['.', '.'] && forall|i: int|
            0 <= i < s.len() ==> s[i] != '/' && s[i] != ':'),
{
}

/// The home directory of a user: `USER_HOMES` followed by the name.
pub open spec fn spec_home(username: Seq<char>) -> Seq<char> {
    USER_HOMES@ + username
}

/// The directory a user's files live in (whether or not the user has a
/// running session): `USER_HOMES` followed by the user name, one segment
/// below it; `None` for a name that is no home name (see `is_home_name`:
/// the empty name, ".", ".." and names with '/'), so that no root lies
/// outside `USER_HOMES`, at `USER_HOMES` itself, or inside another user's.
pub fn get_session_root(_session: Option<ActiveSessionConstructorGuard>, username: &str) -> (root: Option<String>)
    ensures
        root is Some <==> is_home_name(username@),
        root matches Some(r) ==> r@ == spec_home(username@) && r@ == spec_join_path(USER_HOMES@, username@),
{
    if !home_name_ok(username) {
        return None;
    }
    proof {
        reveal_strlit("./data/user-home/");
    }
    let r = join_path(USER_HOMES, username);
    assert(r@ =~= spec_home(username@));
    Some(r)
}

/// Every path below one user's home differs from every path below another
/// user's home: the homes of two different home names are disjoint.
pub proof fn lemma_homes_disjoint(a: Seq<char>, b: Seq<char>, x: Seq<char>, y: Seq<char>)
    requires
        is_home_name(a),
        is_home_name(b),
        a != b,
    ensures
        spec_home(a) + seq!['/'] + x != spec_home(b) + seq!['/'] + y,
{
    let h = USER_HOMES@;
    let l = spec_home(a) + seq!['/'] + x;
    let r = spec_home(b) + seq!['/'] + y;
    if l == r {
        if a.len() < b.len() {
            assert(l[(h.len() + a.len()) as int] == '/');
            assert(r[(h.len() + a.len()) as int] == b[a.len() as int]);
        } else if b.len() < a.len() {
            assert(r[(h.len() + b.len()) as int] == '/');
            assert(l[(h.len() + b.len()) as int] == a[b.len() as int]);
        } else {
            assert forall|i: int| 0 <= i < a.len() implies a[i] == b[i] by {
                assert(l[h.len() + i] == a[i]);
                assert(r[h.len() + i] == b[i]);
            }
            assert(a =~= b);
        }
    }
}

/// A ".." component starts at `i` in `s`: two dots, with '/' or the start
/// of `s` before them and '/' or the end of `s` after them.
pub open spec fn dotdot_at(s: Seq<char>, i: int) -> bool {
    &&& 0 <= i && i + 2 <= s.len()
    &&& s[i] == '.' && s[i + 1] == '.'
    &&& (i == 0 || s[i - 1] == '/')
    &&& (i + 2 == s.len() || s[i + 2] == '/')
}

/// A folder name that would lead out of the directory it is created in:
/// an absolute path, or one with a ".." component.
pub open spec fn leaves_directory(name: Seq<char>) -> bool {
    ||| (name.len() > 0 && name[0] == '/')
    ||| exists|i: int| #[trigger] dotdot_at(name, i)
}

/// A name leads out of its directory exactly when it starts with '/' or
/// has two dots that are a whole '/'-separated component.
pub proof fn lemma_leaves_directory_exactly(name: Seq<char>)
    ensures
        leaves_directory(name) <==> ((name.len() > 0 && name[0] == '/') || exists|i: int|
            #![trigger name[i]]
            0 <= i && i + 2 <= name.len() && name[i] == '.' && name[i + 1] == '.' && (i == 0 || name[i - 1]
                == '/') && (i + 2 == name.len() || name[i + 2] == '/')),
{
    if exists|i: int| #[trigger] dotdot_at(name, i) {
        let i = choose|i: int| #[trigger] dotdot_at(name, i);
        assert(name[i] == '.');
    }
    if exists|i: int|
        #![trigger name[i]]
        0 <= i && i + 2 <= name.len() && name[i] == '.' && name[i + 1] == '.' && (i == 0 || name[i - 1] == '/')
            && (i + 2 == name.len() || name[i + 2] == '/') {
        let i = choose|i: int|
            #![trigger name[i]]
            0 <= i && i + 2 <= name.len() && name[i] == '.' && name[i + 1] == '.' && (i == 0 || name[i - 1]
                == '/') && (i + 2 == name.len() || name[i + 2] == '/');
        assert(dotdot_at(name, i));
    }
}

/// A name without '/' other than ".." stays in its directory: letters,
/// digits, spaces, dots and every other character are accepted.
pub proof fn lemma_plain_name_stays(name: Seq<char>)
    requires
        forall|i: int| 0 <= i < name.len() ==> name[i] != '/',
        name != seq!['.', '.'],
    ensures
        !leaves_directory(name),
{
    if exists|i: int| #[trigger] dotdot_at(name, i) {
        let i = choose|i: int| #[trigger] dotdot_at(name, i);
        if i > 0 {
            assert(name[i - 1] != '/');
        }
        if i + 2 < name.len() {
            assert(name[i + 2] != '/');
        }
        assert(i == 0 && name.len() == 2);
        assert(name =~= seq!['.', '.']);
    }
}

/// The path of a new folder `folder_name` in the directory `fs_path`;
/// `None` when the name would lead out of that directory (see
/// `leaves_directory`). Any other name is kept as given, hidden names too.
pub fn new_folder_path(fs_path: &str, folder_name: &str) -> (target: Option<String>)
    ensures
        target is Some <==> !leaves_directory(folder_name@),
        (forall|i: int| 0 <= i < folder_name@.len() ==> folder_name@[i] != '/') && folder_name@ != seq!['.', '.']
            ==> target is Some,
        target matches Some(t) ==> t@ == spec_join_path(fs_path@, folder_name@),
{
    proof {
        if (forall|i: int| 0 <= i < folder_name@.len() ==> folder_name@[i] != '/') && folder_name@ != seq!['.', '.'] {
            lemma_plain_name_stays(folder_name@);
        }
    }
    let n = folder_name.unicode_len();
    if n > 0 && folder_name.get_char(0) == '/' {
        return None;
    }
    let mut i: usize = 0;
    while i < n
        invariant
            n == folder_name@.len(),
            i <= n,
            forall|j: int| 0 <= j < i ==> !#[trigger] dotdot_at(folder_name@, j),
            (forall|k: int| 0 <= k < folder_name@.len() ==> folder_name@[k] != '/') && folder_name@ != seq!['.', '.']
                ==> !leaves_directory(folder_name@),
        decreases n - i,
    {
        if i + 1 < n && folder_name.get_char(i) == '.' && folder_name.get_char(i + 1) == '.'
            && (i == 0 || folder_name.get_char(i - 1) == '/')
            && (i + 2 == n || folder_name.get_char(i + 2) == '/') {
            assert(dotdot_at(folder_name@, i as int));
            return None;
        }
        i = i + 1;
    }
    assert forall|j: int| !#[trigger] dotdot_at(folder_name@, j) by {
        if 0 <= j < i {
        }
    }
    Some(join_path(fs_path, folder_name))
}

/// A joined path starts with the first part (when that is not empty).
proof fn lemma_join_slash_first(parts: Seq<Seq<char>>)
    requires
        parts.len() > 0,
        parts[0].len() > 0,
    ensures
        join_slash(parts).len() > 0,
        join_slash(parts)[0] == parts[0][0],
    decreases parts.len(),
{
    if parts.len() > 1 {
        lemma_join_slash_first(parts.drop_last());
    }
}

/// The file system path of a request path below a user's directory. It
/// stays below that directory: it is the directory, a separator unless the
/// directory already ends in one, and the request's segments, none of which
/// is "." or "..".
pub fn fs_path_of(root: &str, path: &RequestPath) -> (s: String)
    ensures
        s@ == spec_join_path(root@, join_slash(path@)),
        s@ == (if root@.len() > 0 && root@.last() != '/' {
            root@ + seq!['/']
        } else {
            root@
        }) + join_slash(path@),
        forall|i: int| 0 <= i < path@.len() ==> #[trigger] path@[i].len() > 0 && path@[i][0] != '.',
{
    proof {
        use_type_invariant(path);
        assert forall|i: int| 0 <= i < path@.len() implies #[trigger] path@[i].len() > 0 && path@[i][0] != '.' by {
            assert(path@[i] == path.segments@[i]@);
            assert(valid_segment(path.segments@[i]@));
        }
        if path@.len() > 0 {
            lemma_join_slash_first(path@);
        }
    }
    let p = path.to_path_string();
    join_path(root, p.as_str())
}

/// One way out offered under an error message: where it leads and its label.
pub struct ErrorTemplateOption {
    pub location: String,
    pub name: String,
}

impl View for ErrorTemplateOption {
    type V = (Seq<char>, Seq<char>);

    open spec fn view(&self) -> (Seq<char>, Seq<char>) {
        (self.location@, self.name@)
    }
}

/// An error shown on a page: a title, a message and, possibly, ways out.
pub struct ErrorTemplateContent {
    pub error: String,
    pub message: String,
    pub options: Option<Vec<ErrorTemplateOption>>,
}

/// The view of an error block.
pub ghost struct ErrorView {
    pub error: Seq<char>,
    pub message: Seq<char>,
    pub options: Option<Seq<(Seq<char>, Seq<char>)>>,
}

impl View for ErrorTemplateContent {
    type V = ErrorView;

    open spec fn view(&self) -> ErrorView {
        ErrorView {
            error: self.error@,
            message: self.message@,
            options: match self.options {
                Some(v) => Some(v@.map_values(|o: ErrorTemplateOption| o@)),
                None => None,
            },
        }
    }
}

/// One entry of a directory listing: its name, its request path and
/// whether it is a directory.
pub struct FileInfo {
    pub name: String,
    pub path: String,
    pub is_dir: bool,
}

impl View for FileInfo {
    type V = (Seq<char>, Seq<char>, bool);

    open spec fn view(&self) -> (Seq<char>, Seq<char>, bool) {
        (self.name@, self.path@, self.is_dir)
    }
}

/// The file manager page: the listed entries, the link to the parent
/// directory (none at the root), the current request path, and an error.
pub struct FileResponse {
    pub dir_content: Vec<FileInfo>,
    pub parrent_dir_path: Option<String>,
    pub current: String,
    pub error_block: Option<ErrorTemplateContent>,
}

/// The view of a file manager page.
pub ghost struct FileResponseView {
    pub dir_content: Seq<(Seq<char>, Seq<char>, bool)>,
    pub parrent_dir_path: Option<Seq<char>>,
    pub current: Seq<char>,
    pub error_block: Option<ErrorView>,
}

impl View for FileResponse {
    type V = FileResponseView;

    open spec fn view(&self) -> FileResponseView {
        FileResponseView {
            dir_content: self.dir_content@.map_values(|f: FileInfo| f@),
            parrent_dir_path: opt_view(self.parrent_dir_path),
            current: self.current@,
            error_block: match self.error_block {
                Some(e) => Some(e@),
                None => None,
            },
        }
    }
}

/// What reading a directory gave for one entry: its name, if it is valid
/// Unicode, and whether it is a directory, if that could be told.
pub struct DirEntryInfo {
    pub name: Option<String>,
    pub is_dir: Option<bool>,
}

impl View for DirEntryInfo {
    type V = (Option<Seq<char>>, Option<bool>);

    open spec fn view(&self) -> (Option<Seq<char>>, Option<bool>) {
        (opt_view(self.name), self.is_dir)
    }
}

/// A name the listing leaves out: empty or starting with '.'.
pub open spec fn is_hidden_name(n: Seq<char>) -> bool {
    n.len() == 0 || n[0] == '.'
}

/// The entries a listing shows of the directory at request path `dir`,
/// in the order read: hidden names are left out; the first entry whose name
/// is unreadable, or (not hidden) whose kind is unknown, fails the listing.
pub open spec fn spec_listing(dir: Seq<char>, entries: Seq<(Option<Seq<char>>, Option<bool>)>) -> Result<
    Seq<(Seq<char>, Seq<char>, bool)>,
    Seq<char>,
>
    decreases entries.len(),
{
    if entries.len() == 0 {
        Ok(Seq::empty())
    } else {
        match spec_listing(dir, entries.drop_last()) {
            Err(e) => Err(e),
            Ok(shown) => match entries.last().0 {
                None => Err("Could not convert filename"@),
                Some(n) => if is_hidden_name(n) {
                    Ok(shown)
                } else {
                    match entries.last().1 {
                        None => Err("Could not determin if file is dir"@),
                        Some(d) => Ok(shown.push((n, spec_join_path(dir, n), d))),
                    }
                },
            },
        }
    }
}

/// The link to the parent directory of a request path: none at the root,
/// else "/files/" and the path without its last segment.
pub open spec fn spec_parent_link(path: Seq<Seq<char>>) -> Option<Seq<char>> {
    if path.len() == 0 {
        None
    } else {
        Some("/files/"@ + join_slash(path.take(path.len() - 1)))
    }
}

/// The listed entries of a directory at request path `dir`, or the error of
/// the first entry that fails (see `spec_listing`).
fn list_entries(dir: &String, entries: &Vec<DirEntryInfo>) -> (res: Result<Vec<FileInfo>, String>)
    ensures
        match spec_listing(dir@, entries@.map_values(|d: DirEntryInfo| d@)) {
            Err(msg) => res matches Err(m) && m@ == msg,
            Ok(shown) => res matches Ok(v) && v@.map_values(|f: FileInfo| f@) == shown,
        },
{
    let ghost ev = entries@.map_values(|d: DirEntryInfo| d@);
    let mut content: Vec<FileInfo> = Vec::new();
    assert(ev.take(0) =~= Seq::<(Option<Seq<char>>, Option<bool>)>::empty());
    assert(content@.map_values(|f: FileInfo| f@) =~= Seq::<(Seq<char>, Seq<char>, bool)>::empty());
    let mut i: usize = 0;
    while i < entries.len()
        invariant
            i <= entries.len(),
            ev == entries@.map_values(|d: DirEntryInfo| d@),
            spec_listing(dir@, ev.take(i as int)) == Ok::<_, Seq<char>>(content@.map_values(|f: FileInfo| f@)),
        decreases entries.len() - i,
    {
        assert(ev.take(i + 1).drop_last() =~= ev.take(i as int));
        assert(ev.take(i + 1).last() == entries@[i as int]@);
        let e = &entries[i];
        match &e.name {
            None => {
                proof {
                    lemma_listing_error_persists(dir@, ev, i + 1);
                }
                return Err(String::from_str("Could not convert filename"));
            },
            Some(name) => {
                let n = name.as_str();
                if n.unicode_len() == 0 || n.get_char(0) == '.' {
                    assert(ev.take(i + 1).last().0 == Some(n@));
                } else {
                    match e.is_dir {
                        None => {
                            proof {
                                lemma_listing_error_persists(dir@, ev, i + 1);
                            }
                            return Err(String::from_str("Could not determin if file is dir"));
                        },
                        Some(d) => {
                            let path = join_path(dir.as_str(), n);
                            let ghost before = content@.map_values(|f: FileInfo| f@);
                            content.push(FileInfo { name: name.clone(), path, is_dir: d });
                            assert(content@.map_values(|f: FileInfo| f@) =~= before.push((n@, spec_join_path(dir@, n@), d)));
                        },
                    }
                }
            },
        }
        i = i + 1;
    }
    assert(ev.take(entries.len() as int) =~= ev);
    Ok(content)
}

/// The parent link of a request path: none at the root; "/files/" one level
/// down; deeper, the link followed by '/' and the last segment is
/// "/files/" followed by the whole path, so it names the full path of the
/// parent directory.
pub proof fn lemma_parent_link(path: Seq<Seq<char>>)
    ensures
        path.len() == 0 ==> spec_parent_link(path) is None,
        path.len() == 1 ==> spec_parent_link(path) == Some("/files/"@),
        path.len() >= 2 ==> spec_parent_link(path) is Some && spec_parent_link(path)->0 + seq!['/'] + path.last()
            == "/files/"@ + join_slash(path),
{
    if path.len() == 1 {
        assert(path.take(0) =~= Seq::<Seq<char>>::empty());
        assert("/files/"@ + Seq::<char>::empty() =~= "/files/"@);
    }
    if path.len() >= 2 {
        let up = path.take(path.len() - 1);
        assert(path.drop_last() =~= up);
        assert(up.len() >= 1);
        assert(join_slash(path) == join_slash(path.drop_last()) + seq!['/'] + path.last());
        assert(("/files/"@ + join_slash(up)) + seq!['/'] + path.last() =~= "/files/"@ + (join_slash(up) + seq!['/']
            + path.last()));
    }
}

/// The page listing a directory, from what reading it gave (`entries`):
/// a read error becomes "Error reading directory: " and its message; else
/// the entries are those of `spec_listing` or its error, with the parent
/// link, the current path and no error block.
pub fn list_files(request_path: &RequestPath, entries: Result<Vec<DirEntryInfo>, String>) -> (res: Result<FileResponse, String>)
    ensures
        match entries {
            Err(e) => res matches Err(m) && m@ == "Error reading directory: "@ + e@,
            Ok(v) => match spec_listing(join_slash(request_path@), v@.map_values(|d: DirEntryInfo| d@)) {
                Err(msg) => res matches Err(m) && m@ == msg,
                Ok(shown) => res matches Ok(page) && page@ == (FileResponseView {
                    dir_content: shown,
                    parrent_dir_path: spec_parent_link(request_path@),
                    current: join_slash(request_path@),
                    error_block: None,
                }),
            },
        },
        res matches Ok(page) ==> (request_path@.len() == 0 ==> page.parrent_dir_path is None),
        res matches Ok(page) ==> (request_path@.len() == 1 ==> opt_view(page.parrent_dir_path) == Some("/files/"@)),
        res matches Ok(page) ==> (request_path@.len() >= 2 ==> page.parrent_dir_path is Some
            && page.parrent_dir_path->0@ + seq!['/'] + request_path@.last() == "/files/"@ + page.current@),
{
    proof {
        lemma_parent_link(request_path@);
    }
    let dir = request_path.to_path_string();
    let content = match entries {
        Err(e) => {
            let mut m = String::from_str("Error reading directory: ");
            m.append(e.as_str());
            return Err(m);
        },
        Ok(v) => match list_entries(&dir, &v) {
            Err(m) => {
                return Err(m);
            },
            Ok(c) => c,
        },
    };
    let parent = if request_path.len() == 0 {
        None
    } else {
        let up = strip_from_path(request_path, 1);
        let up_text = up.to_path_string();
        let mut link = String::from_str("/files/");
        link.append(up_text.as_str());
        Some(link)
    };
    Ok(FileResponse { dir_content: content, parrent_dir_path: parent, current: dir, error_block: None })
}

/// Once a prefix of the entries fails the listing, every longer prefix
/// fails it with the same message.
proof fn lemma_listing_error_persists(dir: Seq<char>, entries: Seq<(Option<Seq<char>>, Option<bool>)>, k: int)
    requires
        0 <= k <= entries.len(),
        spec_listing(dir, entries.take(k)) is Err,
    ensures
        spec_listing(dir, entries) == spec_listing(dir, entries.take(k)),
    decreases entries.len() - k,
{
    if k < entries.len() {
        assert(entries.take(k + 1).drop_last() =~= entries.take(k));
        lemma_listing_error_persists(dir, entries, k + 1);
    } else {
        assert(entries.take(k) =~= entries);
    }
}

/// The single way out "Back to root", leading to "/files/".
pub open spec fn spec_back_to_root() -> Seq<(Seq<char>, Seq<char>)> {
    seq![("/files/"@, "Back to root"@)]
}

/// The "Back to root" way out.
pub fn back_to_root_options() -> (o: Vec<ErrorTemplateOption>)
    ensures
        o@.map_values(|x: ErrorTemplateOption| x@) == spec_back_to_root(),
{
    let mut o: Vec<ErrorTemplateOption> = Vec::new();
    o.push(ErrorTemplateOption { location: String::from_str("/files/"), name: String::from_str("Back to root") });
    assert(o@.map_values(|x: ErrorTemplateOption| x@) =~= spec_back_to_root());
    o
}

/// A page with its error block replaced by `e`, all else kept.
pub open spec fn spec_with_error(page: FileResponseView, e: ErrorView) -> FileResponseView {
    FileResponseView {
        dir_content: page.dir_content,
        parrent_dir_path: page.parrent_dir_path,
        current: page.current,
        error_block: Some(e),
    }
}

/// The page with the error block (`error`, `message`, `options`).
pub fn with_error(page: FileResponse, error: &str, message: String, options: Option<Vec<ErrorTemplateOption>>) -> (res: FileResponse)
    ensures
        res@ == spec_with_error(
            page@,
            ErrorView {
                error: error@,
                message: message@,
                options: match options {
                    Some(v) => Some(v@.map_values(|o: ErrorTemplateOption| o@)),
                    None => None,
                },
            },
        ),
{
    let block = ErrorTemplateContent { error: String::from_str(error), message, options };
    FileResponse {
        dir_content: page.dir_content,
        parrent_dir_path: page.parrent_dir_path,
        current: page.current,
        error_block: Some(block),
    }
}

/// What to answer a request for a path below the user's directory.
pub enum DisplayDecision {
    /// Show the file manager page with this message.
    Missing(String),
    /// Send the file itself.
    ServeFile,
    /// Show the directory listing.
    ListDirectory,
}

/// The answer to a request for a path, from whether it exists and whether
/// it is a directory: "The path dose not exist" when it does not exist, the
/// file when it is no directory, else its listing.
pub fn display_files(exists: bool, is_dir: bool) -> (d: DisplayDecision)
    ensures
        !exists ==> (d matches DisplayDecision::Missing(m) && m@ == "The path dose not exist"@),
        exists && !is_dir ==> d is ServeFile,
        exists && is_dir ==> d is ListDirectory,
{
    if !exists {
        DisplayDecision::Missing(String::from_str("The path dose not exist"))
    } else if !is_dir {
        DisplayDecision::ServeFile
    } else {
        DisplayDecision::ListDirectory
    }
}

/// The directory page, or, when listing failed with `msg`, an empty page at
/// the same path without parent link whose error block is "An Error
/// ocurred" with `msg` and no ways out.
pub fn listing_or_error(path: &RequestPath, listed: Result<FileResponse, String>) -> (page: FileResponse)
    ensures
        match listed {
            Ok(p) => page == p,
            Err(msg) => page@ == (FileResponseView {
                dir_content: Seq::empty(),
                parrent_dir_path: None,
                current: join_slash(path@),
                error_block: Some(ErrorView { error: "An Error ocurred"@, message: msg@, options: None }),
            }),
        },
{
    match listed {
        Ok(p) => p,
        Err(msg) => {
            let page = FileResponse {
                dir_content: Vec::new(),
                parrent_dir_path: None,
                current: path.to_path_string(),
                error_block: Some(ErrorTemplateContent { error: String::from_str("An Error ocurred"), message: msg, options: None }),
            };
            assert(page@.dir_content =~= Seq::<(Seq<char>, Seq<char>, bool)>::empty());
            page
        },
    }
}

/// The page after creating a folder: the listing unchanged when it was
/// created and handed to the user; "Could not change owner of Folder" with
/// "The folder was created but might not be writable. <error>." when
/// handing it over failed; "Could not create Folder" with "What would you
/// like to do?" and the way back to the root when it was not created.
pub fn create_folder(listing: FileResponse, created: bool, chown_error: Option<String>) -> (page: FileResponse)
    ensures
        created && chown_error is None ==> page == listing,
        created && chown_error is Some ==> page@ == spec_with_error(
            listing@,
            ErrorView {
                error: "Could not change owner of Folder"@,
                message: "The folder was created but might not be writable. "@ + chown_error->0@ + "."@,
                options: None,
            },
        ),
        !created ==> page@ == spec_with_error(
            listing@,
            ErrorView { error: "Could not create Folder"@, message: "What would you like to do?"@, options: Some(spec_back_to_root()) },
        ),
{
    if created {
        match chown_error {
            None => listing,
            Some(err) => {
                let mut message = String::from_str("The folder was created but might not be writable. ");
                message.append(err.as_str());
                message.append(".");
                with_error(listing, "Could not change owner of Folder", message, None)
            },
        }
    } else {
        let options = back_to_root_options();
        with_error(listing, "Could not create Folder", String::from_str("What would you like to do?"), Some(options))
    }
}

/// A character that Rocket's file name sanitizing cuts at on Unix: '.',
/// '/', the backslash, the shell characters `<>|:()&;#?*` and control
/// characters.
pub open spec fn is_unsafe_file_name_char(c: char) -> bool {
    ||| c == '.' || c == '/' || c == '\\'
    ||| c == '<' || c == '>' || c == '|' || c == ':' || c == '(' || c == ')'
    ||| c == '&' || c == ';' || c == '#' || c == '?' || c == '*'
    ||| (c as u32) <= 0x1f
    ||| 0x7f <= (c as u32) && (c as u32) <= 0x9f
}

/// The sanitized form of an uploaded file's raw name, as
/// `rocket::fs::FileName::as_str` computes it.
pub uninterp spec fn sanitized_file_name(raw: Seq<char>) -> Option<Seq<char>>;

/// Calls `rocket::fs::FileName::new(raw).as_str()`. Its result is named by
/// `sanitized_file_name`; the source shows that a name it gives is not
/// empty and holds none of the characters it cuts at (on Unix).
#[verifier::external_body]
fn sanitize_file_name(raw: &str) -> (name: Option<String>)
    ensures
        opt_view(name) == sanitized_file_name(raw@),
        name matches Some(n) ==> n@.len() > 0 && forall|i: int| 0 <= i < n@.len() ==> !is_unsafe_file_name_char(#[trigger] n@[i]),
{
    rocket::fs::FileName::new(raw).as_str().map(String::from)
}

/// Where an upload is stored: in the directory `fs_path`, under the
/// sanitized form of its raw name. No raw name gives "Error getting
/// filename"; a name with nothing safe in it gives "Illegale filename".
/// The target stays in the directory: the stored name holds no '/' and
/// does not start with '.'.
pub fn add_file_at(fs_path: &str, raw_name: Option<&str>) -> (target: Result<String, String>)
    ensures
        match raw_name {
            None => target matches Err(m) && m@ == "Error getting filename"@,
            Some(raw) => match sanitized_file_name(raw@) {
                None => target matches Err(m) && m@ == "Illegale filename"@,
                Some(n) => target matches Ok(t) && t@ == spec_join_path(fs_path@, n) && n.len() > 0 && n[0] != '.'
                    && forall|i: int| 0 <= i < n.len() ==> n[i] != '/',
            },
        },
{
    let raw = match raw_name {
        None => {
            return Err(String::from_str("Error getting filename"));
        },
        Some(r) => r,
    };
    match sanitize_file_name(raw) {
        None => Err(String::from_str("Illegale filename")),
        Some(name) => {
            proof {
                assert(!is_unsafe_file_name_char(name@[0]));
                assert forall|i: int| 0 <= i < name@.len() implies name@[i] != '/' by {
                    assert(!is_unsafe_file_name_char(name@[i]));
                }
            }
            Ok(join_path(fs_path, name.as_str()))
        },
    }
}

/// The outcome of storing an upload: "File could not save file" when it
/// could not be moved into place, "Could not change owner of file" when it
/// could not be handed to the user, else success.
pub fn file_saved(moved: bool, chown_ok: bool) -> (r: Result<(), String>)
    ensures
        !moved ==> (r matches Err(m) && m@ == "File could not save file"@),
        moved && !chown_ok ==> (r matches Err(m) && m@ == "Could not change owner of file"@),
        moved && chown_ok ==> r is Ok,
{
    if !moved {
        Err(String::from_str("File could not save file"))
    } else if !chown_ok {
        Err(String::from_str("Could not change owner of file"))
    } else {
        Ok(())
    }
}

/// The page after an upload: the listing unchanged on success, else with
/// the error block "Could not save file" and the failure's message.
pub fn upload_file(listing: FileResponse, result: Result<(), String>) -> (page: FileResponse)
    ensures
        result is Ok ==> page == listing,
        result matches Err(msg) ==> page@ == spec_with_error(
            listing@,
            ErrorView { error: "Could not save file"@, message: msg@, options: None },
        ),
{
    match result {
        Ok(()) => listing,
        Err(msg) => with_error(listing, "Could not save file", msg, None),
    }
}

/// The directory shown after deleting `path`: its parent, or the root for
/// the root itself.
pub fn deletion_parent(path: &RequestPath) -> (p: RequestPath)
    ensures
        path@.len() == 0 ==> p@ == Seq::<Seq<char>>::empty(),
        path@.len() > 0 ==> p@ == path@.take(path@.len() - 1),
{
    if path.len() == 0 {
        RequestPath::root()
    } else {
        strip_from_path(path, 1)
    }
}

/// Whether `path` may be deleted: the root may not, and the answer is then
/// the listing with "Cant remove root", "What would you like to do?" and
/// the way back to the root; any other path may, and the listing is kept.
pub fn deleate_file(path: &RequestPath, listing: FileResponse) -> (res: Result<FileResponse, FileResponse>)
    ensures
        path@.len() == 0 ==> (res matches Err(page) && page@ == spec_with_error(
            listing@,
            ErrorView { error: "Cant remove root"@, message: "What would you like to do?"@, options: Some(spec_back_to_root()) },
        )),
        path@.len() > 0 ==> res == Ok::<FileResponse, FileResponse>(listing),
{
    if path.len() < 1 {
        let options = back_to_root_options();
        Err(with_error(listing, "Cant remove root", String::from_str("What would you like to do?"), Some(options)))
    } else {
        Ok(listing)
    }
}

/// The outcome of a removal: success when the removal task completed, else
/// "Could not deleate file".
pub fn deleat_file_at(completed: bool) -> (r: Result<(), String>)
    ensures
        completed ==> r is Ok,
        !completed ==> (r matches Err(m) && m@ == "Could not deleate file"@),
{
    if completed {
        Ok(())
    } else {
        Err(String::from_str("Could not deleate file"))
    }
}

/// The page after a failed removal: the listing with "Could not deleate
/// file" and the failure's message.
pub fn deletion_failed(listing: FileResponse, msg: String) -> (page: FileResponse)
    ensures
        page@ == spec_with_error(listing@, ErrorView { error: "Could not deleate file"@, message: msg@, options: None }),
{
    with_error(listing, "Could not deleate file", msg, None)
}

/// A listing shows exactly the visible entries: when it succeeds, every
/// entry has a readable name, every entry whose name is not hidden is shown
/// with its kind and its request path, and every shown entry is such an
/// entry (so no hidden name is ever shown).
pub proof fn lemma_listing_shows_visible_entries(dir: Seq<char>, entries: Seq<(Option<Seq<char>>, Option<bool>)>)
    requires
        spec_listing(dir, entries) is Ok,
    ensures
        forall|i: int| 0 <= i < entries.len() ==> (#[trigger] entries[i]).0 is Some,
        forall|i: int|
            0 <= i < entries.len() && !is_hidden_name((#[trigger] entries[i]).0->0) ==> entries[i].1 is Some
                && spec_listing(dir, entries)->Ok_0.contains(
                (entries[i].0->0, spec_join_path(dir, entries[i].0->0), entries[i].1->0),
            ),
        forall|k: int|
            0 <= k < spec_listing(dir, entries)->Ok_0.len() ==> exists|i: int|
                0 <= i < entries.len() && !is_hidden_name((#[trigger] entries[i]).0->0) && entries[i].1 is Some
                    && #[trigger] spec_listing(dir, entries)->Ok_0[k] == (
                    entries[i].0->0,
                    spec_join_path(dir, entries[i].0->0),
                    entries[i].1->0,
                ),
    decreases entries.len(),
{
    if entries.len() > 0 {
        let prev = entries.drop_last();
        lemma_listing_shows_visible_entries(dir, prev);
        let shown = spec_listing(dir, prev)->Ok_0;
        let all = spec_listing(dir, entries)->Ok_0;
        let last = entries.len() - 1;
        assert forall|i: int| 0 <= i < entries.len() implies (#[trigger] entries[i]).0 is Some by {
            if i < last {
                assert(entries[i] == prev[i]);
            }
        }
        assert forall|i: int|
            0 <= i < entries.len() && !is_hidden_name((#[trigger] entries[i]).0->0) implies entries[i].1 is Some
                && all.contains((entries[i].0->0, spec_join_path(dir, entries[i].0->0), entries[i].1->0)) by {
            if i < last {
                assert(entries[i] == prev[i]);
                let t = (entries[i].0->0, spec_join_path(dir, entries[i].0->0), entries[i].1->0);
                let j = choose|j: int| 0 <= j < shown.len() && shown[j] == t;
                assert(all[j] == t);
            } else {
                assert(all[all.len() - 1] == (entries[i].0->0, spec_join_path(dir, entries[i].0->0), entries[i].1->0));
            }
        }
        assert forall|k: int| 0 <= k < all.len() implies exists|i: int|
            0 <= i < entries.len() && !is_hidden_name((#[trigger] entries[i]).0->0) && entries[i].1 is Some
                && #[trigger] all[k] == (entries[i].0->0, spec_join_path(dir, entries[i].0->0), entries[i].1->0) by {
            if k < shown.len() {
                assert(all[k] == shown[k]);
                let i = choose|i: int|
                    0 <= i < prev.len() && !is_hidden_name((#[trigger] prev[i]).0->0) && prev[i].1 is Some
                        && #[trigger] shown[k] == (prev[i].0->0, spec_join_path(dir, prev[i].0->0), prev[i].1->0);
                assert(entries[i] == prev[i]);
            } else {
                assert(entries[last] == entries.last());
            }
        }
    }
}

/// Appending characters other than the separator extends the last piece.
proof fn lemma_split_extend(t: Seq<char>, q: Seq<char>, sep: char)
    requires
        forall|i: int| 0 <= i < q.len() ==> q[i] != sep,
    ensures
        split_on(t + q, sep) == split_on(t, sep).update(
            split_on(t, sep).len() - 1,
            split_on(t, sep).last() + q,
        ),
    decreases q.len(),
{
    lemma_split_on_nonempty(t, sep);
    let base = split_on(t, sep);
    if q.len() == 0 {
        assert(t + q =~= t);
        assert(base.last() + q =~= base.last());
        assert(base.update(base.len() - 1, base.last()) =~= base);
    } else {
        let q0 = q.drop_last();
        lemma_split_extend(t, q0, sep);
        assert((t + q).drop_last() =~= t + q0);
        assert((t + q).last() == q.last());
        let prev = split_on(t + q0, sep);
        assert(prev.last() =~= base.last() + q0);
        assert((base.last() + q0).push(q.last()) =~= base.last() + q);
        assert(prev.update(prev.len() - 1, prev.last().push(q.last())) =~= base.update(
            base.len() - 1,
            base.last() + q,
        ));
    }
}

/// Splitting a path's text on '/' gives back its segments, when there is at
/// least one and none holds a '/' (as for every request path).
pub proof fn lemma_split_join(parts: Seq<Seq<char>>)
    requires
        parts.len() > 0,
        forall|k: int, i: int| 0 <= k < parts.len() && 0 <= i < parts[k].len() ==> #[trigger] parts[k][i] != '/',
    ensures
        split_on(join_slash(parts), '/') == parts,
    decreases parts.len(),
{
    let p = parts.last();
    if parts.len() == 1 {
        assert(Seq::<char>::empty() + p =~= p);
        lemma_split_extend(Seq::<char>::empty(), p, '/');
        assert(split_on(Seq::<char>::empty(), '/').update(0, Seq::<char>::empty() + p) =~= parts);
    } else {
        let prev = parts.drop_last();
        lemma_split_join(prev);
        let j = join_slash(prev);
        assert(join_slash(parts) == j + seq!['/'] + p);
        assert((j + seq!['/']).drop_last() =~= j);
        let with_sep = split_on(j + seq!['/'], '/');
        assert(with_sep == prev.push(Seq::<char>::empty()));
        assert forall|i: int| 0 <= i < p.len() implies p[i] != '/' by {
            assert(p == parts[parts.len() - 1]);
            assert(parts[parts.len() - 1][i] != '/');
        }
        lemma_split_extend(j + seq!['/'], p, '/');
        assert(Seq::<char>::empty() + p =~= p);
        assert(prev.push(Seq::<char>::empty()).update(prev.len() as int, Seq::<char>::empty() + p) =~= parts);
    }
}

} // verus!
