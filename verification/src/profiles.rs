//! Profiles: named sets of settings, and what of them can be applied while the daemon runs.
use vstd::prelude::*;
use vstd::string::*;
use crate::config::HushConfig;
use crate::state_dir::{file_stem, join_path};
use crate::state_dir::{joined_path, stem_before};
use crate::text::{chars_of, copy_of, join, sort_texts, trim};
use crate::text::{joined, texts, texts_sorted, trimmed};

verus! {

/// The file that names the active profile.
pub const ACTIVE_PROFILE_FILE: &'static str = "active-profile";

/// The directory of the profiles.
pub const PROFILES_DIR: &'static str = "profiles";

/// The longest name of a profile.
pub const MAX_PROFILE_NAME: usize = 64;

/// Errors of profile operations.
#[derive(Debug)]
pub enum ProfileError {
    /// There is no such profile.
    NotFound(String),
    /// The name is none that a profile can have.
    InvalidName(String),
    /// The profile cannot be parsed.
    Parse { name: String, error: String },
    /// The settings of the profile are invalid.
    Validation { name: String, error: String },
    /// The profile cannot be read.
    Io(String),
}

/// An error, with text for its strings.
#[allow(inconsistent_fields)]
pub enum ProfileErrorModel {
    NotFound(Seq<char>),
    InvalidName(Seq<char>),
    Parse { name: Seq<char>, error: Seq<char> },
    Validation { name: Seq<char>, error: Seq<char> },
    Io(Seq<char>),
}

impl View for ProfileError {
    type V = ProfileErrorModel;

    open spec fn view(&self) -> ProfileErrorModel {
        match self {
            ProfileError::NotFound(n) => ProfileErrorModel::NotFound(n@),
            ProfileError::InvalidName(n) => ProfileErrorModel::InvalidName(n@),
            ProfileError::Parse { name, error } => ProfileErrorModel::Parse {
                name: name@,
                error: error@,
            },
            ProfileError::Validation { name, error } => ProfileErrorModel::Validation {
                name: name@,
                error: error@,
            },
            ProfileError::Io(e) => ProfileErrorModel::Io(e@),
        }
    }
}

/// The message shown for an error.
pub open spec fn profile_error_text(e: ProfileErrorModel) -> Seq<char> {
    match e {
        ProfileErrorModel::NotFound(n) => "profile not found: "@ + n,
        ProfileErrorModel::InvalidName(n) => "invalid profile name '"@ + n
            + "' (must match [A-Za-z0-9_-]{1,64})"@,
        ProfileErrorModel::Parse { name, error } => "TOML parse error in profile "@ + name + ": "@
            + error,
        ProfileErrorModel::Validation { name, error } => "profile "@ + name
            + " validation error: "@ + error,
        ProfileErrorModel::Io(e) => "I/O error: "@ + e,
    }
}

impl ProfileError {
    /// The message shown for the error.
    pub fn message(&self) -> (r: String)
        ensures
            r@ == profile_error_text(self@),
    {
        match self {
            ProfileError::NotFound(n) => "profile not found: ".to_owned().concat(n.as_str()),
            ProfileError::InvalidName(n) => {
                let mut m = "invalid profile name '".to_owned();
                m.append(n.as_str());
                m.append("' (must match [A-Za-z0-9_-]{1,64})");
                m
            },
            ProfileError::Parse { name, error } => {
                let mut m = "TOML parse error in profile ".to_owned();
                m.append(name.as_str());
                m.append(": ");
                m.append(error.as_str());
                m
            },
            ProfileError::Validation { name, error } => {
                let mut m = "profile ".to_owned();
                m.append(name.as_str());
                m.append(" validation error: ");
                m.append(error.as_str());
                m
            },
            ProfileError::Io(e) => "I/O error: ".to_owned().concat(e.as_str()),
        }
    }
}

// ── Names ───────────────────────────────────────────────────────────────────

/// A character that may stand in the name of a profile.
pub open spec fn is_name_char(c: char) -> bool {
    'A' <= c <= 'Z' || 'a' <= c <= 'z' || '0' <= c <= '9' || c == '_' || c == '-'
}

/// A name that a profile can have.
pub open spec fn valid_profile_name(name: Seq<char>) -> bool {
    1 <= name.len() <= MAX_PROFILE_NAME && forall|i: int|
        0 <= i < name.len() ==> is_name_char(#[trigger] name[i])
}

/// Whether a profile can have the name.
pub fn validate_profile_name(name: &str) -> (r: Result<(), ProfileError>)
    ensures
        (match r {
            Ok(()) => valid_profile_name(name@),
            Err(e) => !valid_profile_name(name@) && e@ == ProfileErrorModel::InvalidName(name@),
        }),
{
    let v = chars_of(name);
    if v.len() == 0 || v.len() > MAX_PROFILE_NAME {
        return Err(ProfileError::InvalidName(copy_of(name)));
    }
    let mut i: usize = 0;
    while i < v.len()
        invariant
            0 <= i <= v.len(),
            v@ == name@,
            forall|j: int| 0 <= j < i ==> is_name_char(#[trigger] name@[j]),
        decreases v.len() - i,
    {
        let c = v[i];
        if !(('A' <= c && c <= 'Z') || ('a' <= c && c <= 'z') || ('0' <= c && c <= '9') || c == '_'
            || c == '-') {
            proof {
                assert(!is_name_char(name@[i as int]));
            }
            return Err(ProfileError::InvalidName(copy_of(name)));
        }
        i += 1;
    }
    Ok(())
}

/// The path of a profile's file.
pub open spec fn profile_file(state_dir: Seq<char>, name: Seq<char>) -> Seq<char> {
    joined_path(joined_path(state_dir, PROFILES_DIR@), name + ".toml"@)
}

/// The path of a profile's file.  A name that no profile can have is refused, so that no file is
/// touched for it.
pub fn profile_path(state_dir: &str, name: &str) -> (r: Result<String, ProfileError>)
    ensures
        (match r {
            Ok(p) => valid_profile_name(name@) && p@ == profile_file(state_dir@, name@),
            Err(e) => !valid_profile_name(name@) && e@ == ProfileErrorModel::InvalidName(name@),
        }),
{
    match validate_profile_name(name) {
        Err(e) => {
            return Err(e);
        },
        Ok(()) => {},
    }
    let dir = join_path(state_dir, PROFILES_DIR);
    let file = copy_of(name).concat(".toml");
    Ok(join_path(dir.as_str(), file.as_str()))
}

/// The name of a profile holds nothing that separates directories or leads out of one, so the
/// file of a profile stands in the directory of the profiles.
pub proof fn law_profile_files_stay_in_their_directory(name: Seq<char>)
    requires
        valid_profile_name(name),
    ensures
        !name.contains('/'),
        !name.contains('\\'),
        !name.contains('.'),
        !name.contains(':'),
        !(name + ".toml"@).contains('/'),
        !(name + ".toml"@).contains('\\'),
{
    assert forall|i: int| 0 <= i < name.len() implies #[trigger] name[i] != '/' && name[i] != '\\'
        && name[i] != '.' && name[i] != ':' by {
        assert(is_name_char(name[i]));
    }
    reveal_strlit(".toml");
    let file = name + ".toml"@;
    assert forall|i: int| 0 <= i < file.len() implies #[trigger] file[i] != '/' && file[i] != '\\' by {
        if i < name.len() {
            assert(file[i] == name[i]);
        } else {
            assert(file[i] == ".toml"@[i - name.len()]);
        }
    }
}

/// The stems of the file names that end in `.toml`.
pub open spec fn profile_stems(s: Seq<Seq<char>>) -> Seq<Seq<char>>
    decreases s.len(),
{
    if s.len() == 0 {
        Seq::<Seq<char>>::empty()
    } else {
        match stem_before(s.last(), "toml"@) {
            Some(t) => profile_stems(s.drop_last()).push(t),
            None => profile_stems(s.drop_last()),
        }
    }
}

/// The names of the profiles among the files of a directory, in order.
pub fn list_profiles(file_names: &Vec<String>) -> (r: Vec<String>)
    ensures
        texts_sorted(texts(r@)),
        texts(r@).to_multiset() == profile_stems(texts(file_names@)).to_multiset(),
{
    let mut names: Vec<String> = Vec::new();
    let mut i: usize = 0;
    let ghost all = texts(file_names@);
    while i < file_names.len()
        invariant
            0 <= i <= file_names.len(),
            all == texts(file_names@),
            texts(names@) == profile_stems(all.take(i as int)),
        decreases file_names.len() - i,
    {
        let ghost before = texts(names@);
        proof {
            assert(all.take(i + 1).drop_last() =~= all.take(i as int));
            assert(all.take(i + 1).last() == file_names@[i as int]@);
        }
        match file_stem(file_names[i].as_str(), "toml") {
            Some(t) => {
                names.push(t);
                proof {
                    assert(texts(names@) =~= before.push(t@));
                }
            },
            None => {},
        }
        i += 1;
    }
    proof {
        assert(all.take(i as int) =~= all);
    }
    sort_texts(names)
}

// ── Reading ─────────────────────────────────────────────────────────────────

/// What came of reading a file.
#[derive(Debug)]
pub enum FileRead {
    /// Its content.
    Content(String),
    /// There is no such file.
    Missing,
    /// It cannot be read.
    Failed(String),
}

/// The content of a profile, from what came of reading its file.
pub fn read_profile_content(name: &str, file: FileRead) -> (r: Result<String, ProfileError>)
    ensures
        (if !valid_profile_name(name@) {
            r matches Err(e) && e@ == ProfileErrorModel::InvalidName(name@)
        } else {
            match file {
                FileRead::Content(c) => r matches Ok(s) && s@ == c@,
                FileRead::Missing => r matches Err(e) && e@ == ProfileErrorModel::NotFound(name@),
                FileRead::Failed(t) => r matches Err(e) && e@ == ProfileErrorModel::Io(t@),
            }
        }),
{
    match validate_profile_name(name) {
        Err(e) => {
            return Err(e);
        },
        Ok(()) => {},
    }
    match file {
        FileRead::Content(c) => Ok(c),
        FileRead::Missing => Err(ProfileError::NotFound(copy_of(name))),
        FileRead::Failed(t) => Err(ProfileError::Io(t)),
    }
}

/// The settings of a profile, from what came of parsing its content and the problems that the
/// settings have.
pub fn load_profile(
    name: &str,
    parsed: Result<HushConfig, String>,
    problems: &Vec<String>,
) -> (r: Result<HushConfig, ProfileError>)
    ensures
        (if !valid_profile_name(name@) {
            r matches Err(e) && e@ == ProfileErrorModel::InvalidName(name@)
        } else {
            match parsed {
                Err(t) => r matches Err(e) && e@ == (ProfileErrorModel::Parse {
                    name: name@,
                    error: t@,
                }),
                Ok(c) => if problems@.len() > 0 {
                    r matches Err(e) && e@ == (ProfileErrorModel::Validation {
                        name: name@,
                        error: joined(texts(problems@), "; "@),
                    })
                } else {
                    r == Ok::<HushConfig, ProfileError>(c)
                },
            }
        }),
{
    match validate_profile_name(name) {
        Err(e) => {
            return Err(e);
        },
        Ok(()) => {},
    }
    match parsed {
        Err(t) => Err(ProfileError::Parse { name: copy_of(name), error: t }),
        Ok(c) => if problems.len() > 0 {
            Err(ProfileError::Validation { name: copy_of(name), error: join(problems, "; ") })
        } else {
            Ok(c)
        },
    }
}

/// The name of the active profile, from the file that holds it.
pub fn load_active_profile_name(file: FileRead) -> (r: Option<String>)
    ensures
        crate::text::opt_text(r) == match file {
            FileRead::Content(c) => if trimmed(c@).len() > 0 {
                Some(trimmed(c@))
            } else {
                None
            },
            _ => None,
        },
{
    match file {
        FileRead::Content(c) => {
            let t = trim(c.as_str());
            if t.as_str().is_empty() {
                None
            } else {
                Some(t)
            }
        },
        _ => None,
    }
}

/// The settings in force at startup: those of the active profile, where there is one and it
/// loads, else the base settings, with no profile active.
pub fn load_active_profile_at_startup(
    base_config: HushConfig,
    active: Option<(String, Result<HushConfig, ProfileError>)>,
) -> (r: (HushConfig, Option<String>))
    ensures
        (match active {
            Some((name, Ok(c))) => r.0 == c && crate::text::opt_text(r.1) == Some(name@),
            _ => r.0 == base_config && r.1 is None,
        }),
{
    match active {
        Some((name, Ok(c))) => (c, Some(name)),
        _ => (base_config, None),
    }
}

// ── Reloading ───────────────────────────────────────────────────────────────

/// The sections that changed, by what can be done about them.
#[derive(Debug)]
pub struct ReloadResult {
    /// Sections applied while the daemon runs.
    pub applied: Vec<String>,
    /// Sections that take a restart.
    pub requires_restart: Vec<String>,
}

/// The sections that are applied while the daemon runs.
pub open spec fn hot_sections() -> Seq<Seq<char>> {
    seq![
        "lists"@,
        "privacy"@,
        "upstream"@,
    ]
}

/// Which of them changed.
pub open spec fn hot_changes(old_cfg: HushConfig, new_cfg: HushConfig) -> Seq<bool> {
    seq![
        old_cfg.lists@ != new_cfg.lists@,
        old_cfg.privacy@ != new_cfg.privacy@,
        old_cfg.upstream@ != new_cfg.upstream@,
    ]
}

/// The sections that take a restart: what they govern is set up when the daemon starts.
pub open spec fn restart_sections() -> Seq<Seq<char>> {
    seq![
        "listen"@,
        "block"@,
        "api"@,
        "runtime"@,
        "sentinel"@,
        "dashboard"@,
        "network_guard"@,
        "inbound_tls"@,
    ]
}

/// Which of them changed.
pub open spec fn restart_changes(old_cfg: HushConfig, new_cfg: HushConfig) -> Seq<bool> {
    seq![
        old_cfg.listen@ != new_cfg.listen@,
        old_cfg.block@ != new_cfg.block@,
        old_cfg.api@ != new_cfg.api@,
        old_cfg.runtime@ != new_cfg.runtime@,
        old_cfg.sentinel@ != new_cfg.sentinel@,
        old_cfg.dashboard@ != new_cfg.dashboard@,
        old_cfg.network_guard@ != new_cfg.network_guard@,
        old_cfg.inbound_tls@ != new_cfg.inbound_tls@,
    ]
}

/// Those of the names whose sections changed, in order.
pub open spec fn changed_names(names: Seq<Seq<char>>, changed: Seq<bool>) -> Seq<Seq<char>>
    decreases names.len(),
{
    if names.len() == 0 {
        Seq::<Seq<char>>::empty()
    } else if changed.last() {
        changed_names(names.drop_last(), changed.drop_last()).push(names.last())
    } else {
        changed_names(names.drop_last(), changed.drop_last())
    }
}

/// Those of the names whose sections changed, in order.
fn pick_changed(names: &Vec<String>, changed: &Vec<bool>) -> (r: Vec<String>)
    requires
        names@.len() == changed@.len(),
    ensures
        texts(r@) == changed_names(texts(names@), changed@),
{
    let mut r: Vec<String> = Vec::new();
    let mut i: usize = 0;
    let ghost all = texts(names@);
    while i < names.len()
        invariant
            0 <= i <= names.len(),
            names.len() == changed.len(),
            all == texts(names@),
            texts(r@) == changed_names(all.take(i as int), changed@.take(i as int)),
        decreases names.len() - i,
    {
        let ghost before = texts(r@);
        proof {
            assert(all.take(i + 1).drop_last() =~= all.take(i as int));
            assert(changed@.take(i + 1).drop_last() =~= changed@.take(i as int));
            assert(all.take(i + 1).last() == names@[i as int]@);
        }
        if changed[i] {
            r.push(names[i].clone());
            proof {
                assert(texts(r@) =~= before.push(names@[i as int]@));
            }
        }
        i += 1;
    }
    proof {
        assert(all.take(i as int) =~= all);
        assert(changed@.take(i as int) =~= changed@);
    }
    r
}

/// The names of the sections that take a restart.
fn restart_names() -> (r: Vec<String>)
    ensures
        texts(r@) == restart_sections(),
{
    let v: Vec<String> = vec![
        "listen".to_owned(),
        "block".to_owned(),
        "api".to_owned(),
        "runtime".to_owned(),
        "sentinel".to_owned(),
        "dashboard".to_owned(),
        "network_guard".to_owned(),
        "inbound_tls".to_owned(),
    ];
    proof {
        assert(texts(v@) =~= restart_sections());
    }
    v
}

/// Which sections that take a restart changed.
fn restart_changed(old_cfg: &HushConfig, new_cfg: &HushConfig) -> (r: Vec<bool>)
    ensures
        r@ == restart_changes(*old_cfg, *new_cfg),
{
    let listen = !old_cfg.listen.same(&new_cfg.listen);
    let block = !old_cfg.block.same(&new_cfg.block);
    let api = !old_cfg.api.same(&new_cfg.api);
    let runtime = !old_cfg.runtime.same(&new_cfg.runtime);
    let sentinel = !old_cfg.sentinel.same(&new_cfg.sentinel);
    let dashboard = !old_cfg.dashboard.same(&new_cfg.dashboard);
    let network_guard = !old_cfg.network_guard.same(&new_cfg.network_guard);
    let inbound_tls = !old_cfg.inbound_tls.same(&new_cfg.inbound_tls);
    let v: Vec<bool> = vec![
        listen,
        block,
        api,
        runtime,
        sentinel,
        dashboard,
        network_guard,
        inbound_tls,
    ];
    proof {
        assert(v@ =~= restart_changes(*old_cfg, *new_cfg));
    }
    v
}

/// The sections that changed, by what can be done about them.
pub fn classify_reload(old_cfg: &HushConfig, new_cfg: &HushConfig) -> (r: ReloadResult)
    ensures
        texts(r.applied@) == changed_names(hot_sections(), hot_changes(*old_cfg, *new_cfg)),
        texts(r.requires_restart@) == changed_names(
            restart_sections(),
            restart_changes(*old_cfg, *new_cfg),
        ),
{
    let hot: Vec<String> = vec!["lists".to_owned(), "privacy".to_owned(), "upstream".to_owned()];
    let lists = !old_cfg.lists.same(&new_cfg.lists);
    let privacy = !old_cfg.privacy.same(&new_cfg.privacy);
    let upstream = !old_cfg.upstream.same(&new_cfg.upstream);
    let hot_changed: Vec<bool> = vec![lists, privacy, upstream];
    proof {
        assert(texts(hot@) =~= hot_sections());
        assert(hot_changed@ =~= hot_changes(*old_cfg, *new_cfg));
    }
    let cold = restart_names();
    let cold_changed = restart_changed(old_cfg, new_cfg);
    proof {
        assert(texts(cold@).len() == cold@.len());
    }
    ReloadResult {
        applied: pick_changed(&hot, &hot_changed),
        requires_restart: pick_changed(&cold, &cold_changed),
    }
}

/// Exactly the sections that changed are reported, each under the one name it has.
pub proof fn law_exactly_the_changes_are_reported(
    names: Seq<Seq<char>>,
    changed: Seq<bool>,
    section: Seq<char>,
)
    requires
        names.len() == changed.len(),
    ensures
        changed_names(names, changed).contains(section) <==> exists|i: int|
            0 <= i < names.len() && #[trigger] names[i] == section && changed[i],
    decreases names.len(),
{
    if names.len() > 0 {
        let n = names.drop_last();
        let c = changed.drop_last();
        let front = changed_names(n, c);
        law_exactly_the_changes_are_reported(n, c, section);
        if changed_names(names, changed).contains(section) {
            if front.contains(section) {
                let i = choose|i: int| 0 <= i < n.len() && #[trigger] n[i] == section && c[i];
                assert(names[i] == section && changed[i]);
            } else {
                let k = choose|k: int|
                    0 <= k < changed_names(names, changed).len() && changed_names(names, changed)[k]
                        == section;
                assert(k == front.len());
                assert(names[names.len() - 1] == section);
            }
        }
        if exists|i: int| 0 <= i < names.len() && #[trigger] names[i] == section && changed[i] {
            let i = choose|i: int| 0 <= i < names.len() && #[trigger] names[i] == section && changed[i];
            if i < n.len() {
                assert(n[i] == section && c[i]);
                assert(front.contains(section));
                let k = choose|k: int| 0 <= k < front.len() && front[k] == section;
                assert(changed_names(names, changed)[k] == section);
            } else {
                assert(changed_names(names, changed)[front.len() as int] == section);
            }
        }
    }
}

/// No section stands on both sides: what is applied takes no restart, and what takes a restart
/// is not applied.
pub proof fn law_each_section_stands_on_one_side(section: Seq<char>)
    ensures
        !(hot_sections().contains(section) && restart_sections().contains(section)),
{
    reveal_strlit("lists");
    reveal_strlit("privacy");
    reveal_strlit("upstream");
    reveal_strlit("listen");
    reveal_strlit("block");
    reveal_strlit("api");
    reveal_strlit("runtime");
    reveal_strlit("sentinel");
    reveal_strlit("dashboard");
    reveal_strlit("network_guard");
    reveal_strlit("inbound_tls");
    if hot_sections().contains(section) && restart_sections().contains(section) {
        let i = choose|i: int| 0 <= i < 3 && hot_sections()[i] == section;
        let j = choose|j: int| 0 <= j < 8 && restart_sections()[j] == section;
        assert(section.len() == "lists"@.len() || section.len() == "privacy"@.len()
            || section.len() == "upstream"@.len());
        assert(section[0] == 'l' || section[0] == 'p' || section[0] == 'u');
        assert(j == 0);
    }
}

/// Settings that did not change are not reported.
pub proof fn law_unchanged_settings_are_not_reported(c: HushConfig)
    ensures
        changed_names(hot_sections(), hot_changes(c, c)).len() == 0,
        changed_names(restart_sections(), restart_changes(c, c)).len() == 0,
{
    lemma_nothing_changed(hot_sections(), hot_changes(c, c));
    lemma_nothing_changed(restart_sections(), restart_changes(c, c));
}

proof fn lemma_nothing_changed(names: Seq<Seq<char>>, changed: Seq<bool>)
    requires
        names.len() == changed.len(),
        forall|i: int| 0 <= i < changed.len() ==> !#[trigger] changed[i],
    ensures
        changed_names(names, changed).len() == 0,
    decreases names.len(),
{
    if names.len() > 0 {
        assert(!changed[changed.len() - 1]);
        assert forall|i: int| 0 <= i < changed.drop_last().len() implies !#[trigger] changed.drop_last()[i] by {
            assert(!changed[i]);
        }
        lemma_nothing_changed(names.drop_last(), changed.drop_last());
    }
}

// ── What the steps mean ─────────────────────────────────────────────────────

/// A profile can have a name of one to 64 letters, digits, underscores and hyphens; a profile
/// with another name is refused by that name, whatever is asked of it.
pub proof fn law_which_names_profiles_have(
    name: &str,
    r: Result<(), ProfileError>,
    dir: &str,
    path: Result<String, ProfileError>,
    file: FileRead,
    content: Result<String, ProfileError>,
    parsed: Result<HushConfig, String>,
    problems: &Vec<String>,
    loaded: Result<HushConfig, ProfileError>,
)
    requires
        call_ensures(validate_profile_name, (name,), r),
        call_ensures(profile_path, (dir, name), path),
        call_ensures(read_profile_content, (name, file), content),
        call_ensures(load_profile, (name, parsed, problems), loaded),
    ensures
        r is Ok <==> 1 <= name@.len() <= 64 && forall|i: int|
            0 <= i < name@.len() ==> ('a' <= #[trigger] name@[i] <= 'z' || 'A' <= name@[i] <= 'Z' || '0'
                <= name@[i] <= '9' || name@[i] == '_' || name@[i] == '-'),
        r matches Err(e) ==> (e matches ProfileError::InvalidName(n) && n@ == name@),
        path is Ok <==> r is Ok,
        r is Err ==> content is Err && loaded is Err,
        content matches Err(e) ==> (e is InvalidName <==> r is Err),
        loaded matches Err(e) ==> (e is InvalidName <==> r is Err),
{
    if r is Ok {
        assert forall|i: int| 0 <= i < name@.len() implies ('a' <= #[trigger] name@[i] <= 'z' || 'A'
            <= name@[i] <= 'Z' || '0' <= name@[i] <= '9' || name@[i] == '_' || name@[i] == '-') by {
            assert(is_name_char(name@[i]));
        }
    }
    if 1 <= name@.len() <= 64 && forall|i: int|
        0 <= i < name@.len() ==> ('a' <= #[trigger] name@[i] <= 'z' || 'A' <= name@[i] <= 'Z' || '0'
            <= name@[i] <= '9' || name@[i] == '_' || name@[i] == '-') {
        assert forall|i: int| 0 <= i < name@.len() implies is_name_char(#[trigger] name@[i]) by {}
    }
}

/// The file of a profile stands in the directory of the profiles under its name.
pub proof fn law_where_profiles_are_kept(
    state_dir: &str,
    name: &str,
    r: Result<String, ProfileError>,
    dir: String,
    inner: &str,
    file: &str,
    path: String,
)
    requires
        call_ensures(profile_path, (state_dir, name), r),
        call_ensures(join_path, (state_dir, "profiles"), dir),
        inner@ == dir@,
        file@ == name@ + ".toml"@,
        call_ensures(join_path, (inner, file), path),
    ensures
        r matches Ok(p) ==> p@ == path@,
{
}

/// The profiles of a directory: for each file that is a name and `.toml`, that name, once for
/// each such file and in order, and nothing for other files.
pub proof fn law_which_profiles_there_are(
    files: &Vec<String>,
    more: &Vec<String>,
    last: String,
    r: Vec<String>,
    all: Vec<String>,
    stem: Seq<char>,
)
    requires
        call_ensures(list_profiles, (files,), r),
        call_ensures(list_profiles, (more,), all),
        more@ == files@.push(last),
        stem.len() > 0,
    ensures
        files@.len() == 0 ==> r@.len() == 0,
        last@ == stem + ".toml"@ ==> texts(all@).to_multiset() == texts(r@).to_multiset().insert(stem),
        (forall|s: Seq<char>| s.len() > 0 ==> last@ != #[trigger] (s + ".toml"@)) ==> texts(all@)
            == texts(r@),
        forall|i: int, j: int|
            0 <= i < j < r@.len() ==> crate::text::text_le(#[trigger] r@[i]@, #[trigger] r@[j]@),
{
    reveal_strlit("toml");
    reveal_strlit(".toml");
    let t = "toml"@;
    assert(!t.contains('.'));
    assert(texts(more@).drop_last() =~= texts(files@));
    assert(texts(more@).last() == last@);
    crate::state_dir::lemma_stem(last@, t, stem);
    assert(stem.push('.') + t =~= stem + ".toml"@);
    let before = profile_stems(texts(files@));
    if files@.len() == 0 {
        assert(before.len() == 0);
        broadcast use vstd::seq_lib::group_to_multiset_ensures;

        assert(texts(r@).to_multiset().len() == texts(r@).len());
        assert(before.to_multiset().len() == before.len());
        assert(r@.len() == texts(r@).len());
    }
    if last@ == stem + ".toml"@ {
        broadcast use vstd::seq_lib::group_to_multiset_ensures;

        assert(profile_stems(texts(more@)) == before.push(stem));
        assert(texts(all@).to_multiset() =~= texts(r@).to_multiset().insert(stem));
    }
    if forall|s: Seq<char>| s.len() > 0 ==> last@ != #[trigger] (s + ".toml"@) {
        match stem_before(last@, t) {
            Some(s) => {
                assert(s.push('.') + t =~= s + ".toml"@);
                assert(last@ == s + ".toml"@);
            },
            None => {},
        }
        crate::text::lemma_sorted_texts_unique(texts(all@), texts(r@));
    }
    assert forall|i: int, j: int| 0 <= i < j < r@.len() implies crate::text::text_le(
        #[trigger] r@[i]@,
        #[trigger] r@[j]@,
    ) by {
        assert(texts(r@)[i] == r@[i]@ && texts(r@)[j] == r@[j]@);
    }
}

/// A profile is loaded as it was parsed, where it parsed and its settings have no problems, and
/// its content is shown as it was read; the errors tell a missing profile, one that cannot be
/// read, one that does not parse and one with problems apart.
pub proof fn law_how_profiles_are_loaded(
    name: &str,
    valid: Result<(), ProfileError>,
    file: FileRead,
    content: Result<String, ProfileError>,
    parsed: Result<HushConfig, String>,
    problems: &Vec<String>,
    loaded: Result<HushConfig, ProfileError>,
)
    requires
        call_ensures(validate_profile_name, (name,), valid),
        valid is Ok,
        call_ensures(read_profile_content, (name, file), content),
        call_ensures(load_profile, (name, parsed, problems), loaded),
    ensures
        file matches FileRead::Content(c) ==> (content matches Ok(s) && s@ == c@),
        file is Missing ==> (content matches Err(ProfileError::NotFound(n)) && n@ == name@),
        file matches FileRead::Failed(t) ==> (content matches Err(ProfileError::Io(m)) && m@ == t@),
        parsed matches Ok(c) ==> (problems@.len() == 0 ==> loaded == Ok::<HushConfig, ProfileError>(c)),
        parsed is Ok && problems@.len() > 0 ==> (loaded matches Err(e) && e is Validation),
        parsed is Err ==> (loaded matches Err(e) && e is Parse),
{
}

/// The active profile is the one that its file names, between white space; at the start its
/// settings are in force where it loads, and the base settings otherwise, with no profile
/// active.
pub proof fn law_which_profile_is_active(
    file: FileRead,
    r: Option<String>,
    base: HushConfig,
    active: Option<(String, Result<HushConfig, ProfileError>)>,
    start: (HushConfig, Option<String>),
)
    requires
        call_ensures(load_active_profile_name, (file,), r),
        call_ensures(load_active_profile_at_startup, (base, active), start),
    ensures
        r is Some <==> (file matches FileRead::Content(c) && trimmed(c@).len() > 0),
        r matches Some(n) ==> n@ == trimmed(file->Content_0@),
        active is None || (active->0).1 is Err ==> start.0 == base && start.1 is None,
        active is Some && (active->0).1 is Ok ==> start.0 == (active->0).1->Ok_0 && (start.1
            matches Some(n) && n@ == (active->0).0@),
{
}

/// What is reported of a reload, section by section: `lists`, `privacy` and `upstream` are
/// applied just where they changed, the others take a restart just where they changed.
pub proof fn law_what_is_reported_of_a_reload(old_cfg: &HushConfig, new_cfg: &HushConfig, r: ReloadResult)
    requires
        call_ensures(classify_reload, (old_cfg, new_cfg), r),
    ensures
        texts(r.applied@).contains("lists"@) <==> old_cfg.lists@ != new_cfg.lists@,
        texts(r.applied@).contains("privacy"@) <==> old_cfg.privacy@ != new_cfg.privacy@,
        texts(r.applied@).contains("upstream"@) <==> old_cfg.upstream@ != new_cfg.upstream@,
        texts(r.requires_restart@).contains("listen"@) <==> old_cfg.listen@ != new_cfg.listen@,
        texts(r.requires_restart@).contains("block"@) <==> old_cfg.block@ != new_cfg.block@,
        texts(r.requires_restart@).contains("api"@) <==> old_cfg.api@ != new_cfg.api@,
        texts(r.requires_restart@).contains("runtime"@) <==> old_cfg.runtime@ != new_cfg.runtime@,
        texts(r.requires_restart@).contains("sentinel"@) <==> old_cfg.sentinel@ != new_cfg.sentinel@,
        texts(r.requires_restart@).contains("dashboard"@) <==> old_cfg.dashboard@ != new_cfg.dashboard@,
        texts(r.requires_restart@).contains("network_guard"@) <==> old_cfg.network_guard@
            != new_cfg.network_guard@,
        texts(r.requires_restart@).contains("inbound_tls"@) <==> old_cfg.inbound_tls@
            != new_cfg.inbound_tls@,
{
    let hot = hot_sections();
    let hc = hot_changes(*old_cfg, *new_cfg);
    let cold = restart_sections();
    let cc = restart_changes(*old_cfg, *new_cfg);
    assert(hot[0] == "lists"@ && hot[1] == "privacy"@ && hot[2] == "upstream"@);
    assert(cold[0] == "listen"@ && cold[1] == "block"@ && cold[2] == "api"@ && cold[3] == "runtime"@
        && cold[4] == "sentinel"@ && cold[5] == "dashboard"@ && cold[6] == "network_guard"@ && cold[7]
        == "inbound_tls"@);
    lemma_sections_differ();
    lemma_reported(hot, hc, 0);
    lemma_reported(hot, hc, 1);
    lemma_reported(hot, hc, 2);
    lemma_reported(cold, cc, 0);
    lemma_reported(cold, cc, 1);
    lemma_reported(cold, cc, 2);
    lemma_reported(cold, cc, 3);
    lemma_reported(cold, cc, 4);
    lemma_reported(cold, cc, 5);
    lemma_reported(cold, cc, 6);
    lemma_reported(cold, cc, 7);
}

proof fn lemma_sections_differ()
    ensures
        hot_sections().no_duplicates(),
        restart_sections().no_duplicates(),
{
    reveal_strlit("lists");
    reveal_strlit("privacy");
    reveal_strlit("upstream");
    reveal_strlit("listen");
    reveal_strlit("block");
    reveal_strlit("api");
    reveal_strlit("runtime");
    reveal_strlit("sentinel");
    reveal_strlit("dashboard");
    reveal_strlit("network_guard");
    reveal_strlit("inbound_tls");
    let h = hot_sections();
    assert(h[0].len() == 5 && h[1].len() == 7 && h[2].len() == 8);
    let c = restart_sections();
    assert(c[0][0] == 'l' && c[1][0] == 'b' && c[2][0] == 'a' && c[3][0] == 'r' && c[4][0] == 's'
        && c[5][0] == 'd' && c[6][0] == 'n' && c[7][0] == 'i');
}

proof fn lemma_reported(names: Seq<Seq<char>>, changed: Seq<bool>, i: int)
    requires
        names.len() == changed.len(),
        names.no_duplicates(),
        0 <= i < names.len(),
    ensures
        changed_names(names, changed).contains(names[i]) <==> changed[i],
{
    law_exactly_the_changes_are_reported(names, changed, names[i]);
    if changed_names(names, changed).contains(names[i]) {
        let k = choose|k: int| 0 <= k < names.len() && #[trigger] names[k] == names[i] && changed[k];
        assert(k == i);
    }
}

/// What a failure of a profile is called.
pub proof fn law_profile_errors_are_told(e: &ProfileError, r: String)
    requires
        call_ensures(ProfileError::message, (e,), r),
    ensures
        *e matches ProfileError::NotFound(n) ==> r@ == "profile not found: "@ + n@,
        *e matches ProfileError::InvalidName(n) ==> r@ == "invalid profile name '"@ + n@
            + "' (must match [A-Za-z0-9_-]{1,64})"@,
        *e matches ProfileError::Parse { name, error } ==> r@ == "TOML parse error in profile "@ + name@
            + ": "@ + error@,
        *e matches ProfileError::Validation { name, error } ==> r@ == "profile "@ + name@
            + " validation error: "@ + error@,
        *e matches ProfileError::Io(s) ==> r@ == "I/O error: "@ + s@,
{
}

}
