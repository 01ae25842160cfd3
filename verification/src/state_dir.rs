//! Where the daemon keeps its state.
use vstd::prelude::*;
use vstd::string::*;
use crate::text::{chars_of, copy_of, last_index_of, same_text, string_of};
use crate::text::last_index;

verus! {

/// The path of `name` inside the directory `dir`, with a slash between them.  Whoever opens it on
/// a system with another separator puts that in.
pub open spec fn joined_path(dir: Seq<char>, name: Seq<char>) -> Seq<char> {
    if dir.len() == 0 || dir.last() == '/' {
        dir + name
    } else {
        dir.push('/') + name
    }
}

/// The path of `name` inside the directory `dir`.
pub fn join_path(dir: &str, name: &str) -> (r: String)
    ensures
        r@ == joined_path(dir@, name@),
{
    let v = chars_of(dir);
    let mut r = copy_of(dir);
    if v.len() > 0 && v[v.len() - 1] != '/' {
        r.push('/');
    }
    r.append(name);
    r
}

/// The part of a file's name in front of its extension, where that is `ext`.  A name has no
/// extension where its only dot stands at its start.
pub open spec fn stem_before(name: Seq<char>, ext: Seq<char>) -> Option<Seq<char>> {
    let dot = last_index(name, '.');
    if dot > 0 && name.skip(dot + 1) == ext {
        Some(name.take(dot))
    } else {
        None
    }
}

/// The part of a file's name in front of its extension, where that is `ext`.
pub fn file_stem(name: &str, ext: &str) -> (r: Option<String>)
    ensures
        crate::text::opt_text(r) == stem_before(name@, ext@),
{
    let v = chars_of(name);
    match last_index_of(&v, '.') {
        Some(dot) => {
            if dot == 0 {
                return None;
            }
            let n: usize = v.len();
            let e = string_of(&v, dot + 1, n);
            proof {
                assert(e@ =~= name@.skip(dot + 1));
            }
            if !same_text(e.as_str(), ext) {
                return None;
            }
            let stem = string_of(&v, 0, dot);
            proof {
                assert(stem@ =~= name@.take(dot as int));
            }
            Some(stem)
        },
        None => None,
    }
}

/// Where the daemon keeps its state on Linux and on systems without a place of their own.
pub const UNIX_STATE_DIR: &'static str = "/var/lib/hushwarren";

/// Where the daemon keeps its state on macOS.
pub const MACOS_STATE_DIR: &'static str = "/Library/Application Support/hushwarren";

/// The directory for program data on Windows, where the environment names none.
pub const WINDOWS_PROGRAM_DATA: &'static str = "C:\\ProgramData";

/// Where the daemon keeps its state where it may not use the usual place.
pub const FALLBACK_STATE_DIR: &'static str = ".hushwarren-state";

/// Errors of setting up the state directory.
#[derive(Debug)]
pub enum StateDirError {
    /// A directory could not be made.
    Create { path: String, source: String },
}

impl StateDirError {
    /// The message shown for the error.
    pub fn message(&self) -> (r: String)
        ensures
            (match *self {
                StateDirError::Create { path, source } => r@ == "failed to create state directory "@
                    + path@ + ": "@ + source@,
            }),
    {
        match self {
            StateDirError::Create { path, source } => {
                let mut m = "failed to create state directory ".to_owned();
                m.append(path.as_str());
                m.append(": ");
                m.append(source.as_str());
                m
            },
        }
    }
}

/// What came of reaching for the usual place.
#[derive(Debug, Clone, Copy, PartialEq, Eq, Structural)]
pub enum UsualPlace {
    /// It is there, or could be made.
    Reached,
    /// It may not be made.
    Denied,
    /// It could not be made for another reason, which shows again later.
    Failed,
}

/// Where the daemon keeps its state: where it was told to, else where the environment says,
/// else in the usual place, or in the working directory where that may not be made.
pub open spec fn state_dir_of(
    explicit: Option<Seq<char>>,
    from_env: Option<Seq<char>>,
    usual: Seq<char>,
    place: UsualPlace,
) -> Seq<char> {
    match explicit {
        Some(p) => p,
        None => if from_env is Some && from_env->0.len() > 0 {
            from_env->0
        } else if place == UsualPlace::Denied {
            FALLBACK_STATE_DIR@
        } else {
            usual
        },
    }
}

/// The directory that was told or that the environment names; none where the usual place is
/// to be tried.
pub fn told_state_dir(explicit: Option<&str>, from_env: Option<&str>) -> (r: Option<String>)
    ensures
        (match r {
            Some(p) => forall|usual: Seq<char>, place: UsualPlace| #[trigger]
                state_dir_of(
                    crate::lists::ref_text(explicit),
                    crate::lists::ref_text(from_env),
                    usual,
                    place,
                ) == p@,
            None => explicit is None && (from_env is Some ==> from_env->0@.len() == 0),
        }),
{
    match explicit {
        Some(p) => Some(copy_of(p)),
        None => match from_env {
            Some(e) => if e.is_empty() {
                None
            } else {
                Some(copy_of(e))
            },
            None => None,
        },
    }
}

/// Where the daemon keeps its state.
pub fn resolve(
    explicit: Option<&str>,
    from_env: Option<&str>,
    usual: &str,
    place: UsualPlace,
) -> (r: String)
    ensures
        r@ == state_dir_of(
            crate::lists::ref_text(explicit),
            crate::lists::ref_text(from_env),
            usual@,
            place,
        ),
{
    match told_state_dir(explicit, from_env) {
        Some(p) => p,
        None => match place {
            UsualPlace::Denied => copy_of(FALLBACK_STATE_DIR),
            _ => copy_of(usual),
        },
    }
}

/// The directories to make: the state directory, then those inside it.
pub fn init(root: &str) -> (r: Vec<String>)
    ensures
        crate::text::texts(r@) == seq![
            root@,
            joined_path(root@, "lists"@),
            joined_path(root@, "compiled"@),
        ],
{
    let mut v: Vec<String> = Vec::new();
    v.push(copy_of(root));
    v.push(join_path(root, "lists"));
    v.push(join_path(root, "compiled"));
    proof {
        assert(crate::text::texts(v@) =~= seq![
            root@,
            joined_path(root@, "lists"@),
            joined_path(root@, "compiled"@),
        ]);
    }
    v
}

/// What was told wins over the environment, and the environment over the usual place.
pub proof fn law_state_dir_precedence(
    told: Seq<char>,
    env: Seq<char>,
    usual: Seq<char>,
    place: UsualPlace,
)
    ensures
        state_dir_of(Some(told), Some(env), usual, place) == told,
        env.len() > 0 ==> state_dir_of(None, Some(env), usual, place) == env,
        env.len() == 0 ==> state_dir_of(None, Some(env), usual, place) == state_dir_of(
            None,
            None,
            usual,
            place,
        ),
{
}

/// The stem of a name is what stands in front of the dot and the extension.
pub proof fn lemma_stem(name: Seq<char>, ext: Seq<char>, stem: Seq<char>)
    requires
        !ext.contains('.'),
    ensures
        stem.len() > 0 && name == stem.push('.') + ext ==> stem_before(name, ext) == Some(stem),
        stem_before(name, ext) matches Some(s) ==> s.len() > 0 && name == s.push('.') + ext,
{
    if stem.len() > 0 && name == stem.push('.') + ext {
        let k = stem.len() as int;
        assert(name[k] == '.');
        assert forall|j: int| k < j < name.len() implies name[j] != '.' by {
            assert(name[j] == ext[j - k - 1]);
        }
        crate::text::lemma_last_index(name, '.', k);
        assert(name.skip(k + 1) =~= ext);
        assert(name.take(k) =~= stem);
    }
    match stem_before(name, ext) {
        Some(s) => {
            let dot = last_index(name, '.');
            crate::text::lemma_last_index_is_one(name, '.');
            assert(name =~= s.push('.') + ext);
        },
        None => {},
    }
}

/// A path ends with the name that was put behind the directory.
pub proof fn lemma_joined_path(dir: Seq<char>, name: Seq<char>)
    ensures
        joined_path(dir, name).len() >= name.len(),
        joined_path(dir, name).skip(joined_path(dir, name).len() - name.len()) == name,
{
    let p = joined_path(dir, name);
    assert(p.skip(p.len() - name.len()) =~= name);
}

/// A path is the directory, one slash between where the directory does not end in one, and the
/// name.
pub proof fn law_paths_have_one_slash_between(dir: &str, name: &str, r: String)
    requires
        call_ensures(join_path, (dir, name), r),
    ensures
        dir@.len() == 0 ==> r@ == name@,
        dir@.len() > 0 && dir@.last() == '/' ==> r@ == dir@ + name@,
        dir@.len() > 0 && dir@.last() != '/' ==> r@ == dir@ + seq!['/'] + name@,
{
    assert(dir@.push('/') =~= dir@ + seq!['/']);
    if dir@.len() == 0 {
        assert(dir@ + name@ =~= name@);
    }
}

/// A name has an extension just where it is something, a dot and the extension.
pub proof fn law_extensions_are_told_by_the_last_dot(name: &str, ext: &str, r: Option<String>, stem: Seq<char>)
    requires
        call_ensures(file_stem, (name, ext), r),
        !ext@.contains('.'),
    ensures
        stem.len() > 0 && name@ == stem + seq!['.'] + ext@ ==> (r matches Some(s) && s@ == stem),
        r matches Some(s) ==> s@.len() > 0 && name@ == s@ + seq!['.'] + ext@,
{
    lemma_stem(name@, ext@, stem);
    assert(stem.push('.') =~= stem + seq!['.']);
    match r {
        Some(s) => assert(s@.push('.') =~= s@ + seq!['.']),
        None => {},
    }
}

/// Where the state is kept: where it was told, else where a non-empty environment variable says,
/// else in the usual place unless that is denied, and then in a directory of its own.
pub proof fn law_where_the_state_is_kept(
    explicit: Option<&str>,
    from_env: Option<&str>,
    usual: &str,
    place: UsualPlace,
    r: String,
    told: Option<String>,
)
    requires
        call_ensures(resolve, (explicit, from_env, usual, place), r),
        call_ensures(told_state_dir, (explicit, from_env), told),
    ensures
        explicit is Some ==> r@ == explicit->0@,
        explicit is None && from_env is Some && from_env->0@.len() > 0 ==> r@ == from_env->0@,
        explicit is None && (from_env is None || from_env->0@.len() == 0) ==> r@ == if place
            == UsualPlace::Denied {
            ".hushwarren-state"@
        } else {
            usual@
        },
        told is Some <==> explicit is Some || (from_env is Some && from_env->0@.len() > 0),
        told matches Some(p) ==> p@ == r@,
{
    match told {
        Some(p) => {
            assert(state_dir_of(
                crate::lists::ref_text(explicit),
                crate::lists::ref_text(from_env),
                usual@,
                place,
            ) == p@);
            if explicit is None && (from_env is None || from_env->0@.len() == 0) {
                let e = crate::lists::ref_text(explicit);
                let v = crate::lists::ref_text(from_env);
                let a = seq!['a'];
                let b = seq!['b'];
                assert(state_dir_of(e, v, a, UsualPlace::Reached) == p@);
                assert(state_dir_of(e, v, b, UsualPlace::Reached) == p@);
                assert(a[0] != b[0]);
            }
        },
        None => {},
    }
}

/// The state directory is made before what stands inside it.
pub proof fn law_the_directories_that_are_made(root: &str, r: Vec<String>, lists: String, compiled: String)
    requires
        call_ensures(init, (root,), r),
        call_ensures(join_path, (root, "lists"), lists),
        call_ensures(join_path, (root, "compiled"), compiled),
    ensures
        r@.len() == 3,
        r@[0]@ == root@,
        r@[1]@ == lists@,
        r@[2]@ == compiled@,
{
    let t = crate::text::texts(r@);
    assert(t.len() == r@.len());
    assert(t[0] == r@[0]@ && t[1] == r@[1]@ && t[2] == r@[2]@);
}

}
