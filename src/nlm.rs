use vstd::prelude::*;
use vstd::string::*;
use crate::text::{
    chars_of, is_control, join_words, lines_of, split_lines, split_words,
    string_of_range, trim_bounds, trim_str, trimmed, without_control, words_of,
};
use crate::transcribe::{join_segments, lemma_joined_segments_words};

verus! {

// The notebook-sync command line tool: what to ask it, and how to read what
// it prints and the credentials file it keeps. Running it is left to the caller.

/// A notebook as the tool lists it.
pub struct NlmNotebook {
    pub id: String,
    pub title: String,
}

/// Whether the tool can be used.
pub struct NlmStatus {
    pub authenticated: bool,
    pub binary_available: bool,
    pub binary_path: Option<String>,
    pub current_profile: Option<String>,
}

/// A credentials profile and whether it holds credentials.
pub struct NlmAccountInfo {
    pub profile_name: String,
    pub has_credentials: bool,
}

/// A browser profile the tool can authenticate with.
pub struct NlmBrowserProfile {
    pub name: String,
    pub display_name: String,
}

/// What the tool reports about one notebook.
pub struct NlmNotebookDetails {
    pub id: String,
    pub title: String,
    pub sources: String,
    pub notes: String,
    pub analytics: String,
}

/// Why the tool's output could not be read. A listing line that shows no
/// notebook is skipped rather than refused, so reading a listing never fails.
#[derive(PartialEq, Eq, Structural, Clone, Copy, Debug)]
pub enum NlmError {
    Malformed,
}

/// Milliseconds the tool may run before it is stopped.
pub const NLM_TIMEOUT_MS: u64 = 30_000;

/// What became of a run of the tool when it was last looked at.
#[derive(PartialEq, Eq, Structural, Clone, Copy, Debug)]
pub enum ChildState {
    Running,
    Exited { success: bool },
    WaitFailed,
}

/// What to do next about a run of the tool.
#[derive(PartialEq, Eq, Structural, Clone, Copy, Debug)]
pub enum PollAction {
    /// Return its standard output.
    ReturnOutput,
    /// Report failure with its error and standard output.
    ReportFailure,
    /// Stop it: it ran out of time.
    Kill,
    /// Look again after a short sleep.
    Wait,
    /// Report that waiting on it failed.
    ReportWaitError,
}

/// Decides the next step of a run of the tool, `elapsed_ms` after it started.
pub fn poll_step(state: ChildState, elapsed_ms: u64) -> (r: PollAction)
    ensures
        state == (ChildState::Exited { success: true }) ==> r == PollAction::ReturnOutput,
        state == (ChildState::Exited { success: false }) ==> r == PollAction::ReportFailure,
        state == ChildState::WaitFailed ==> r == PollAction::ReportWaitError,
        state == ChildState::Running && elapsed_ms > NLM_TIMEOUT_MS ==> r == PollAction::Kill,
        state == ChildState::Running && elapsed_ms <= NLM_TIMEOUT_MS ==> r == PollAction::Wait,
{
    match state {
        ChildState::Exited { success } => if success {
            PollAction::ReturnOutput
        } else {
            PollAction::ReportFailure
        },
        ChildState::WaitFailed => PollAction::ReportWaitError,
        ChildState::Running => if elapsed_ms > NLM_TIMEOUT_MS {
            PollAction::Kill
        } else {
            PollAction::Wait
        },
    }
}

fn argument_pair(a: &str, b: &str) -> (r: Vec<String>)
    ensures
        r@.len() == 2,
        r@[0]@ == a@,
        r@[1]@ == b@,
{
    let mut v: Vec<String> = Vec::new();
    v.push(String::from_str(a));
    v.push(String::from_str(b));
    v
}

/// The arguments that list the notebooks.
pub fn list_notebooks() -> (r: Vec<String>)
    ensures
        r@.len() == 1,
        r@[0]@ == "list"@,
{
    let mut v: Vec<String> = Vec::new();
    v.push(String::from_str("list"));
    v
}

/// The arguments that add the audio file at `audio_path` to a notebook.
pub fn add_audio_to_notebook(notebook_id: &str, audio_path: &str) -> (r: Vec<String>)
    ensures
        r@.len() == 3,
        r@[0]@ == "add"@,
        r@[1]@ == notebook_id@,
        r@[2]@ == audio_path@,
{
    let mut v = argument_pair("add", notebook_id);
    v.push(String::from_str(audio_path));
    v
}

/// The arguments that start authentication with the default profile.
pub fn start_auth() -> (r: Vec<String>)
    ensures
        r@.len() == 2,
        r@[0]@ == "auth"@,
        r@[1]@ == "login"@,
{
    argument_pair("auth", "login")
}

/// The profile directory of a profile name: what follows its first `:`
/// (as in `Chrome:Default`), or the whole name.
pub open spec fn profile_dir(name: Seq<char>) -> Seq<char> {
    if exists|i: int| 0 <= i < name.len() && name[i] == ':' {
        let i = choose|i: int|
            0 <= i < name.len() && name[i] == ':' && forall|k: int| 0 <= k < i ==> name[k] != ':';
        name.subrange(i + 1, name.len() as int)
    } else {
        name
    }
}

/// The arguments that authenticate with the browser profile `profile_name`.
pub fn auth_with_profile(profile_name: &str) -> (r: Vec<String>)
    ensures
        r@.len() == 4,
        r@[0]@ == "auth"@,
        r@[1]@ == "login"@,
        r@[2]@ == "-profile"@,
        r@[3]@ == profile_dir(profile_name@),
{
    let cs = chars_of(profile_name);
    let mut i: usize = 0;
    while i < cs.len() && cs[i] != ':'
        invariant
            cs@ == profile_name@,
            i <= cs@.len(),
            forall|k: int| 0 <= k < i ==> cs@[k] != ':',
        decreases cs@.len() - i,
    {
        i += 1;
    }
    let dir = if i < cs.len() {
        proof {
            let j = choose|j: int|
                0 <= j < cs@.len() && cs@[j] == ':' && forall|k: int| 0 <= k < j ==> cs@[k] != ':';
            assert(cs@[i as int] == ':');
            if j < i {
                assert(cs@[j] != ':');
            } else if j > i {
                assert(cs@[i as int] != ':');
            }
        }
        string_of_range(&cs, i + 1, cs.len())
    } else {
        proof {
            assert(cs@.subrange(0, cs@.len() as int) =~= cs@);
        }
        string_of_range(&cs, 0, cs.len())
    };
    let mut v = argument_pair("auth", "login");
    v.push(String::from_str("-profile"));
    v.push(dir);
    v
}

/// The arguments that create a notebook titled `title`.
pub fn create_notebook(title: &str) -> (r: Vec<String>)
    ensures
        r@.len() == 2,
        r@[0]@ == "create"@,
        r@[1]@ == title@,
{
    argument_pair("create", title)
}

/// A report of the tool, or the text of its failure after `Error: `.
pub open spec fn report_text(r: Result<String, String>) -> Seq<char> {
    match r {
        Ok(s) => s@,
        Err(e) => "Error: "@ + e@,
    }
}

fn report_string(r: Result<String, String>) -> (s: String)
    ensures
        s@ == report_text(r),
{
    match r {
        Ok(s) => s,
        Err(e) => {
            let mut s = String::from_str("Error: ");
            s.append(e.as_str());
            s
        },
    }
}

/// Gathers the details of a notebook from the tool's three reports; a
/// failed report is kept as the text of its error.
pub fn get_notebook_details(
    notebook_id: &str,
    title: &str,
    sources: Result<String, String>,
    notes: Result<String, String>,
    analytics: Result<String, String>,
) -> (r: NlmNotebookDetails)
    ensures
        r.id@ == notebook_id@,
        r.title@ == title@,
        r.sources@ == report_text(sources),
        r.notes@ == report_text(notes),
        r.analytics@ == report_text(analytics),
{
    NlmNotebookDetails {
        id: String::from_str(notebook_id),
        title: String::from_str(title),
        sources: report_string(sources),
        notes: report_string(notes),
        analytics: report_string(analytics),
    }
}

/// `s` after `prefix`, if it starts with it.
pub open spec fn after_prefix(s: Seq<char>, prefix: Seq<char>) -> Option<Seq<char>> {
    if prefix.len() <= s.len() && s.subrange(0, prefix.len() as int) == prefix {
        Some(s.subrange(prefix.len() as int, s.len() as int))
    } else {
        None
    }
}

/// `s` without `"` at either end.
pub open spec fn unquoted(s: Seq<char>) -> Seq<char>
    decreases s.len(),
{
    if s.len() > 0 && s[0] == '"' {
        unquoted(s.drop_first())
    } else if s.len() > 0 && s.last() == '"' {
        unquoted(s.drop_last())
    } else {
        s
    }
}

/// The value of a settings line `KEY=value`, trimmed and unquoted.
pub open spec fn setting_value(line: Seq<char>, key: Seq<char>) -> Option<Seq<char>> {
    match after_prefix(line, key) {
        Some(v) => Some(unquoted(trimmed(v))),
        None => None,
    }
}

fn unquote_chars(v: &Vec<char>) -> (r: String)
    ensures
        r@ == unquoted(v@),
{
    let mut a: usize = 0;
    let mut b: usize = v.len();
    assert(v@.subrange(0, v@.len() as int) =~= v@);
    while a < b && (v[a] == '"' || v[b - 1] == '"')
        invariant
            a <= b <= v@.len(),
            unquoted(v@) == unquoted(v@.subrange(a as int, b as int)),
        decreases b - a,
    {
        let ghost cur = v@.subrange(a as int, b as int);
        if v[a] == '"' {
            assert(cur[0] == v@[a as int]);
            assert(cur.drop_first() =~= v@.subrange(a as int + 1, b as int));
            a += 1;
        } else {
            assert(cur.last() == v@[b - 1]);
            assert(cur[0] == v@[a as int]);
            assert(cur.drop_last() =~= v@.subrange(a as int, b as int - 1));
            b -= 1;
        }
    }
    string_of_range(v, a, b)
}

/// The value of `line` for the setting `key` (given with its `=`).
fn setting_of_line(line: &str, key: &str) -> (r: Option<String>)
    ensures
        match setting_value(line@, key@) {
            Some(v) => r is Some && r.unwrap()@ == v,
            None => r is None,
        },
{
    let lc = chars_of(line);
    let kc = chars_of(key);
    if kc.len() > lc.len() {
        return None;
    }
    let mut i: usize = 0;
    while i < kc.len()
        invariant
            kc@ == key@,
            lc@ == line@,
            kc@.len() <= lc@.len(),
            i <= kc@.len(),
            forall|k: int| 0 <= k < i ==> lc@[k] == kc@[k],
        decreases kc@.len() - i,
    {
        if lc[i] != kc[i] {
            assert(lc@.subrange(0, kc@.len() as int)[i as int] != kc@[i as int]);
            return None;
        }
        i += 1;
    }
    assert(lc@.subrange(0, kc@.len() as int) =~= kc@);
    let rest = string_of_range(&lc, kc.len(), lc.len());
    let t = trim_str(rest.as_str());
    let tc = chars_of(t.as_str());
    Some(unquote_chars(&tc))
}

/// The browser profile named in the credentials file: the first
/// `NLM_BROWSER_PROFILE=` line, `Default` when its value is empty.
pub open spec fn profile_in(lines: Seq<Seq<char>>) -> Option<Seq<char>>
    decreases lines.len(),
{
    if lines.len() == 0 {
        None
    } else {
        match setting_value(lines[0], "NLM_BROWSER_PROFILE="@) {
            Some(v) => Some(
                if v.len() == 0 {
                    "Default"@
                } else {
                    v
                },
            ),
            None => profile_in(lines.drop_first()),
        }
    }
}

/// A `NLM_AUTH_TOKEN=` line with a non-empty value.
pub open spec fn token_line(line: Seq<char>) -> bool {
    match setting_value(line, "NLM_AUTH_TOKEN="@) {
        Some(v) => v.len() > 0,
        None => false,
    }
}

/// Some line of the credentials file holds a token.
pub open spec fn has_token(lines: Seq<Seq<char>>) -> bool {
    exists|i: int| 0 <= i < lines.len() && #[trigger] token_line(lines[i])
}

/// Reads the credentials file: the browser profile it names and whether it
/// holds a token.
pub fn read_credentials(content: &str) -> (r: (Option<String>, bool))
    ensures
        match profile_in(lines_of(content@)) {
            Some(p) => r.0 is Some && r.0.unwrap()@ == p,
            None => r.0 is None,
        },
        r.1 == has_token(lines_of(content@)),
{
    let lines = split_lines(content);
    let ghost ls = lines_of(content@);
    let mut profile: Option<String> = None;
    let mut token = false;
    let mut i: usize = lines.len();
    while i > 0
        invariant
            i <= lines@.len(),
            lines@.len() == ls.len(),
            ls == lines_of(content@),
            forall|k: int| 0 <= k < lines@.len() ==> (#[trigger] lines@[k])@ == ls[k],
            match profile_in(ls.subrange(i as int, ls.len() as int)) {
                Some(p) => profile is Some && profile.unwrap()@ == p,
                None => profile is None,
            },
            token == has_token(ls.subrange(i as int, ls.len() as int)),
        decreases i,
    {
        i -= 1;
        let ghost tail = ls.subrange(i as int, ls.len() as int);
        assert(tail.drop_first() =~= ls.subrange(i as int + 1, ls.len() as int));
        assert(tail[0] == ls[i as int]);
        let line = &lines[i];
        match setting_of_line(line.as_str(), "NLM_BROWSER_PROFILE=") {
            Some(v) => {
                if v.as_str().unicode_len() == 0 {
                    profile = Some(String::from_str("Default"));
                } else {
                    profile = Some(v);
                }
            },
            None => {},
        }
        match setting_of_line(line.as_str(), "NLM_AUTH_TOKEN=") {
            Some(v) => {
                if v.as_str().unicode_len() > 0 {
                    token = true;
                    assert(token_line(tail[0]));
                }
            },
            None => {},
        }
        proof {
            let rest = ls.subrange(i as int + 1, ls.len() as int);
            if token {
                if !token_line(tail[0]) {
                    let k = choose|k: int| 0 <= k < rest.len() && #[trigger] token_line(rest[k]);
                    assert(tail[k + 1] == rest[k]);
                }
            } else {
                assert forall|k: int| 0 <= k < tail.len() implies !#[trigger] token_line(tail[k]) by {
                    if k > 0 {
                        assert(tail[k] == rest[k - 1]);
                    }
                }
            }
        }
    }
    assert(ls.subrange(0, ls.len() as int) =~= ls);
    (profile, token)
}

/// Whether the tool can be used, given where its binary is (if found) and
/// the text of its credentials file (if readable): authenticated only where
/// the binary is there and the file holds a token.
pub fn get_nlm_status(binary_path: Option<String>, credentials: Option<&str>) -> (r: NlmStatus)
    ensures
        r.binary_available == binary_path is Some,
        r.binary_path == binary_path,
        credentials is None ==> r.current_profile is None && !r.authenticated,
        credentials matches Some(c) ==> (r.authenticated == (binary_path is Some && has_token(
            lines_of(c@),
        )) && match profile_in(lines_of(c@)) {
            Some(p) => r.current_profile is Some && r.current_profile.unwrap()@ == p,
            None => r.current_profile is None,
        }),
{
    let available = binary_path.is_some();
    match credentials {
        Some(c) => {
            let (profile, token) = read_credentials(c);
            NlmStatus {
                authenticated: available && token,
                binary_available: available,
                binary_path,
                current_profile: profile,
            }
        },
        None => NlmStatus {
            authenticated: false,
            binary_available: available,
            binary_path,
            current_profile: None,
        },
    }
}

/// Whether `c` is an ASCII hexadecimal digit.
pub open spec fn is_hex_digit(c: char) -> bool {
    ('0' <= c && c <= '9') || ('a' <= c && c <= 'f') || ('A' <= c && c <= 'F')
}

/// `s` is a notebook id: 36 characters, dashes at 8, 13, 18 and 23 and
/// hexadecimal digits elsewhere.
pub open spec fn is_notebook_id(s: Seq<char>) -> bool {
    &&& s.len() == 36
    &&& forall|i: int|
        #![trigger s[i]]
        0 <= i < 36 ==> if i == 8 || i == 13 || i == 18 || i == 23 {
            s[i] == '-'
        } else {
            is_hex_digit(s[i])
        }
}

/// The words end with a source count and a timestamp (`...T...Z`).
pub open spec fn has_count_and_timestamp(ws: Seq<Seq<char>>) -> bool {
    &&& ws.len() >= 2
    &&& exists|i: int| 0 <= i < ws.last().len() && ws.last()[i] == 'T'
    &&& ws.last().len() > 0
    &&& ws.last().last() == 'Z'
    &&& forall|i: int| 0 <= i < ws[ws.len() - 2].len() ==> '0' <= #[trigger] ws[ws.len() - 2][i] <= '9'
}

/// The title in what follows the id on a listing line: without a trailing
/// source count and timestamp when both are there.
pub open spec fn title_of(rest: Seq<char>) -> Seq<char> {
    let ws = words_of(rest);
    if has_count_and_timestamp(ws) {
        join_words(ws.subrange(0, ws.len() - 2))
    } else {
        rest
    }
}

/// The notebook a listing line shows, as id and title, if it shows one.
pub open spec fn notebook_of_line(line: Seq<char>) -> Option<(Seq<char>, Seq<char>)> {
    let t = trimmed(line);
    if t.len() < 36 || !is_notebook_id(t.subrange(0, 36)) {
        None
    } else {
        let title = title_of(trimmed(without_control(t.subrange(36, t.len() as int))));
        Some(
            (
                t.subrange(0, 36),
                if title.len() == 0 {
                    "(untitled)"@
                } else {
                    title
                },
            ),
        )
    }
}

/// The notebooks of a listing, in order.
pub open spec fn notebooks_of(lines: Seq<Seq<char>>) -> Seq<(Seq<char>, Seq<char>)>
    decreases lines.len(),
{
    if lines.len() == 0 {
        Seq::empty()
    } else {
        let rest = notebooks_of(lines.drop_last());
        match notebook_of_line(lines.last()) {
            Some(n) => rest.push(n),
            None => rest,
        }
    }
}

fn title_from_rest(rest: &String) -> (r: String)
    ensures
        r@ == title_of(rest@),
{
    let mut words = split_words(rest.as_str());
    let ghost ws = words_of(rest@);
    let n = words.len();
    if n < 2 {
        return rest.clone();
    }
    let last = chars_of(words[n - 1].as_str());
    let count = chars_of(words[n - 2].as_str());
    let mut has_t = false;
    let mut i: usize = 0;
    while i < last.len()
        invariant
            i <= last@.len(),
            has_t == exists|k: int| 0 <= k < i && last@[k] == 'T',
        decreases last@.len() - i,
    {
        if last[i] == 'T' {
            has_t = true;
        }
        i += 1;
    }
    let mut digits = true;
    let mut j: usize = 0;
    while j < count.len()
        invariant
            j <= count@.len(),
            digits == forall|k: int| 0 <= k < j ==> '0' <= #[trigger] count@[k] <= '9',
        decreases count@.len() - j,
    {
        if !('0' <= count[j] && count[j] <= '9') {
            digits = false;
        }
        j += 1;
    }
    let ends_z = last.len() > 0 && last[last.len() - 1] == 'Z';
    assert(last@ == ws.last());
    assert(count@ == ws[ws.len() - 2]);
    if has_t && ends_z && digits {
        let ghost before = words@;
        words.pop();
        words.pop();
        proof {
            assert(words@ =~= before.subrange(0, n - 2));
            let wsp = ws.subrange(0, ws.len() - 2);
            assert forall|k: int| 0 <= k < words@.len() implies (#[trigger] words@[k])@ == wsp[k] by {
                assert(words@[k] == before[k]);
            }
            lemma_joined_segments_words(words@, wsp);
        }
        join_segments(&words)
    } else {
        rest.clone()
    }
}

/// Reads one line of a listing.
fn parse_notebook_line(line: &str) -> (r: Option<NlmNotebook>)
    ensures
        match notebook_of_line(line@) {
            Some(nb) => r is Some && r.unwrap().id@ == nb.0 && r.unwrap().title@ == nb.1,
            None => r is None,
        },
{
    let cs = chars_of(line);
    let (a, b) = trim_bounds(&cs);
    let ghost t = trimmed(line@);
    assert(cs@.subrange(a as int, b as int) == t);
    if b - a < 36 {
        return None;
    }
    let mut k: usize = 0;
    while k < 36
        invariant
            a + 36 <= b <= cs@.len(),
            cs@.subrange(a as int, b as int) == t,
            t == trimmed(line@),
            k <= 36,
            forall|i: int|
                #![trigger t[i]]
                0 <= i < k ==> if i == 8 || i == 13 || i == 18 || i == 23 {
                    t[i] == '-'
                } else {
                    is_hex_digit(t[i])
                },
        decreases 36 - k,
    {
        let c = cs[a + k];
        assert(c == t[k as int]);
        let ok = if k == 8 || k == 13 || k == 18 || k == 23 {
            c == '-'
        } else {
            ('0' <= c && c <= '9') || ('a' <= c && c <= 'f') || ('A' <= c && c <= 'F')
        };
        if !ok {
            proof {
                let id = t.subrange(0, 36);
                assert(id[k as int] == c);
                if k == 8 || k == 13 || k == 18 || k == 23 {
                    assert(id[k as int] != '-');
                } else {
                    assert(!is_hex_digit(id[k as int]));
                }
                assert(!is_notebook_id(id));
            }
            return None;
        }
        k += 1;
    }
    proof {
        let id = t.subrange(0, 36);
        assert forall|i: int| #![trigger id[i]] 0 <= i < 36 implies (if i == 8 || i == 13 || i == 18 || i == 23 {
            id[i] == '-'
        } else {
            is_hex_digit(id[i])
        }) by {
            assert(id[i] == t[i]);
        }
    }
    let id = string_of_range(&cs, a, a + 36);
    assert(id@ =~= t.subrange(0, 36));
    let ghost tail = t.subrange(36, t.len() as int);
    let mut kept: Vec<char> = Vec::new();
    let mut p: usize = a + 36;
    while p < b
        invariant
            a + 36 <= p <= b,
            b <= cs@.len(),
            cs@.subrange(a as int, b as int) == t,
            t == trimmed(line@),
            tail == t.subrange(36, t.len() as int),
            kept@ == without_control(tail.subrange(0, p - a - 36)),
        decreases b - p,
    {
        proof {
            assert(tail.subrange(0, p - a - 36 + 1).drop_last() =~= tail.subrange(0, p - a - 36));
            assert(tail[p - a - 36] == cs@[p as int]);
        }
        let c = cs[p];
        if !is_control(c) {
            kept.push(c);
        }
        p += 1;
    }
    assert(tail.subrange(0, b - a - 36) =~= tail);
    let (c, d) = trim_bounds(&kept);
    let rest = string_of_range(&kept, c, d);
    let title = title_from_rest(&rest);
    let title = if title.as_str().unicode_len() == 0 {
        String::from_str("(untitled)")
    } else {
        title
    };
    Some(NlmNotebook { id, title })
}

/// Reads the notebook listing the tool prints: each line that starts (after
/// trimming) with a notebook id gives a notebook, titled by the rest of the
/// line without control characters and without a trailing source count and
/// timestamp, or `(untitled)`.
pub fn parse_notebook_list(output: &str) -> (r: Result<Vec<NlmNotebook>, NlmError>)
    ensures
        r is Ok,
        r matches Ok(v) ==> v@.len() == notebooks_of(lines_of(output@)).len(),
        r matches Ok(v) ==> forall|i: int|
            0 <= i < v@.len() ==> (#[trigger] v@[i]).id@ == notebooks_of(lines_of(output@))[i].0
                && v@[i].title@ == notebooks_of(lines_of(output@))[i].1,
{
    let lines = split_lines(output);
    let ghost ls = lines_of(output@);
    let mut out: Vec<NlmNotebook> = Vec::new();
    let mut i: usize = 0;
    while i < lines.len()
        invariant
            i <= lines@.len(),
            lines@.len() == ls.len(),
            forall|k: int| 0 <= k < lines@.len() ==> (#[trigger] lines@[k])@ == ls[k],
            out@.len() == notebooks_of(ls.subrange(0, i as int)).len(),
            forall|k: int|
                0 <= k < out@.len() ==> (#[trigger] out@[k]).id@ == notebooks_of(ls.subrange(0, i as int))[k].0
                    && out@[k].title@ == notebooks_of(ls.subrange(0, i as int))[k].1,
        decreases lines@.len() - i,
    {
        proof {
            assert(ls.subrange(0, i as int + 1).drop_last() =~= ls.subrange(0, i as int));
            assert(ls.subrange(0, i as int + 1).last() == ls[i as int]);
        }
        match parse_notebook_line(lines[i].as_str()) {
            Some(nb) => {
                out.push(nb);
            },
            None => {},
        }
        i += 1;
    }
    assert(ls.subrange(0, ls.len() as int) =~= ls);
    Ok(out)
}

} // verus!
