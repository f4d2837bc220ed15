//! Preparing an on-completion script run: the program, its arguments with
//! the `%` placeholders substituted, and its environment.
use vstd::prelude::*;
use crate::bindings::{char_is_whitespace, is_white_space, opt_view};
use crate::models::{ScriptResult, Torrent, TorrentView};
use crate::text::{
    char_views, chars_of, decimal, decimal_string, owned, replace_all, replace_chars, string_of,
};

verus! {

/// The words of a text: the runs of non-whitespace characters, in order
/// (what `str::split_whitespace` yields).
pub open spec fn words(s: Seq<char>) -> Seq<Seq<char>>
    decreases s.len(),
{
    if s.len() == 0 {
        Seq::empty()
    } else {
        let p = words(s.drop_last());
        let c = s.last();
        if is_white_space(c) {
            p
        } else if s.len() >= 2 && !is_white_space(s[s.len() - 2]) && p.len() > 0 {
            p.update(p.len() - 1, p.last().push(c))
        } else {
            p.push(seq![c])
        }
    }
}

/// `str::split_whitespace` over a character vector.
pub fn split_words(v: &Vec<char>) -> (r: Vec<Vec<char>>)
    ensures
        char_views(r@) == words(v@),
{
    let mut out: Vec<Vec<char>> = Vec::new();
    let mut cur: Vec<char> = Vec::new();
    let mut i: usize = 0;
    assert(v@.take(0) =~= Seq::<char>::empty());
    while i < v.len()
        invariant
            i <= v.len(),
            cur@.len() == 0 ==> char_views(out@) == words(v@.take(i as int)),
            cur@.len() == 0 ==> i == 0 || is_white_space(v@[i - 1]),
            cur@.len() > 0 ==> i > 0 && !is_white_space(v@[i - 1]) && char_views(out@).push(cur@) == words(v@.take(i as int)),
        decreases v.len() - i,
    {
        let c = v[i];
        let ghost t = v@.take(i + 1);
        assert(t.drop_last() =~= v@.take(i as int));
        assert(t.last() == c);
        if char_is_whitespace(c) {
            if cur.len() > 0 {
                let ghost before = out@;
                let w = cur;
                out.push(w);
                cur = Vec::new();
                assert(char_views(out@) =~= char_views(before).push(w@));
            }
        } else {
            let ghost prev_cur = cur@;
            if cur.len() > 0 {
                assert(t[t.len() - 2] == v@[i - 1]);
                cur.push(c);
                assert(char_views(out@).push(cur@) =~= char_views(out@).push(prev_cur).update(
                    char_views(out@).len() as int,
                    prev_cur.push(c),
                ));
            } else {
                cur.push(c);
                assert(cur@ =~= seq![c]);
            }
        }
        i = i + 1;
    }
    assert(v@.take(v.len() as int) =~= v@);
    if cur.len() > 0 {
        let ghost before = out@;
        let w = cur;
        out.push(w);
        assert(char_views(out@) =~= char_views(before).push(w@));
    }
    out
}

/// An optional text, or `-` where there is none.
pub open spec fn or_dash(o: Option<Seq<char>>) -> Seq<char> {
    match o {
        Some(x) => x,
        None => "-"@,
    }
}

/// An argument with the placeholders of qBittorrent substituted in turn:
/// `%N` name, `%L` category, `%G` tags, `%F` content path, `%R` root path,
/// `%D` save path, `%C` number of files, `%Z` size, `%T` tracker, `%I` and
/// `%J` info hashes (`-` where absent), `%K` the torrent id.
pub open spec fn substituted(arg: Seq<char>, t: TorrentView, files_len: nat) -> Seq<char> {
    let a1 = replace_all(arg, "%N"@, t.name);
    let a2 = replace_all(a1, "%L"@, t.category);
    let a3 = replace_all(a2, "%G"@, t.tags);
    let a4 = replace_all(a3, "%F"@, t.content_path);
    let a5 = replace_all(a4, "%R"@, t.root_path);
    let a6 = replace_all(a5, "%D"@, t.save_path);
    let a7 = replace_all(a6, "%C"@, decimal(files_len));
    let a8 = replace_all(a7, "%Z"@, decimal(t.size as nat));
    let a9 = replace_all(a8, "%T"@, t.tracker);
    let a10 = replace_all(a9, "%I"@, or_dash(t.infohash_v1));
    let a11 = replace_all(a10, "%J"@, or_dash(t.infohash_v2));
    replace_all(a11, "%K"@, t.hash)
}

/// The environment of a script run, in the order it is set.
pub open spec fn script_env(t: TorrentView, files_len: nat) -> Seq<(Seq<char>, Seq<char>)> {
    seq![
        ("TORRENT_NAME"@, t.name),
        ("TORRENT_CATEGORY"@, t.category),
        ("TORRENT_TAGS"@, t.tags),
        ("TORRENT_CONTENT_PATH"@, t.content_path),
        ("TORRENT_ROOT_PATH"@, t.root_path),
        ("TORRENT_SAVE_PATH"@, t.save_path),
        ("TORRENT_NUM_FILES"@, decimal(files_len)),
        ("TORRENT_SIZE"@, decimal(t.size as nat)),
        ("TORRENT_TRACKER"@, t.tracker),
        ("TORRENT_INFOHASH_V1"@, or_dash(t.infohash_v1)),
        ("TORRENT_INFOHASH_V2"@, or_dash(t.infohash_v2)),
        ("TORRENT_ID"@, t.hash),
    ]
}

/// The value of the first entry of an environment with the given name.
pub open spec fn env_value(env: Seq<(Seq<char>, Seq<char>)>, name: Seq<char>) -> Option<Seq<char>>
    decreases env.len(),
{
    if env.len() == 0 {
        None
    } else if env[0].0 == name {
        Some(env[0].1)
    } else {
        env_value(env.drop_first(), name)
    }
}

/// Each variable of a script run's environment carries the torrent field it
/// is named after: the name, category, tags, paths and tracker as they are,
/// the number of files and the size in decimal, the info hashes (`-` where
/// absent) and the torrent id.
pub proof fn law_environment_names_its_fields(t: TorrentView, files_len: nat)
    ensures
        env_value(script_env(t, files_len), "TORRENT_NAME"@) == Some(t.name),
        env_value(script_env(t, files_len), "TORRENT_CATEGORY"@) == Some(t.category),
        env_value(script_env(t, files_len), "TORRENT_TAGS"@) == Some(t.tags),
        env_value(script_env(t, files_len), "TORRENT_CONTENT_PATH"@) == Some(t.content_path),
        env_value(script_env(t, files_len), "TORRENT_ROOT_PATH"@) == Some(t.root_path),
        env_value(script_env(t, files_len), "TORRENT_SAVE_PATH"@) == Some(t.save_path),
        env_value(script_env(t, files_len), "TORRENT_NUM_FILES"@) == Some(decimal(files_len)),
        env_value(script_env(t, files_len), "TORRENT_SIZE"@) == Some(decimal(t.size as nat)),
        env_value(script_env(t, files_len), "TORRENT_TRACKER"@) == Some(t.tracker),
        env_value(script_env(t, files_len), "TORRENT_INFOHASH_V1"@) == Some(
            match t.infohash_v1 {
                Some(h) => h,
                None => "-"@,
            },
        ),
        env_value(script_env(t, files_len), "TORRENT_INFOHASH_V2"@) == Some(
            match t.infohash_v2 {
                Some(h) => h,
                None => "-"@,
            },
        ),
        env_value(script_env(t, files_len), "TORRENT_ID"@) == Some(t.hash),
{
    reveal_strlit("TORRENT_NAME");
    reveal_strlit("TORRENT_CATEGORY");
    reveal_strlit("TORRENT_TAGS");
    reveal_strlit("TORRENT_CONTENT_PATH");
    reveal_strlit("TORRENT_ROOT_PATH");
    reveal_strlit("TORRENT_SAVE_PATH");
    reveal_strlit("TORRENT_NUM_FILES");
    reveal_strlit("TORRENT_SIZE");
    reveal_strlit("TORRENT_TRACKER");
    reveal_strlit("TORRENT_INFOHASH_V1");
    reveal_strlit("TORRENT_INFOHASH_V2");
    reveal_strlit("TORRENT_ID");
    let env = script_env(t, files_len);
    assert(env[0].0[8] != env[2].0[8] && env[0].0[8] != env[7].0[8] && env[2].0[8] != env[7].0[8]);
    assert(env[4].0[8] != env[5].0[8] && env[4].0[8] != env[6].0[8] && env[5].0[8] != env[6].0[8]);
    assert(env[9].0[18] != env[10].0[18]);
    assert forall|a: int, b: int| 0 <= a < b < 12 implies #[trigger] env[a].0 != #[trigger] env[b].0 by {
        if env[a].0.len() == env[b].0.len() {
            if a == 0 && b == 2 { assert(env[a].0[8] != env[b].0[8]); }
            if a == 0 && b == 7 { assert(env[a].0[8] != env[b].0[8]); }
            if a == 2 && b == 7 { assert(env[a].0[8] != env[b].0[8]); }
            if a == 4 && b == 5 { assert(env[a].0[8] != env[b].0[8]); }
            if a == 4 && b == 6 { assert(env[a].0[8] != env[b].0[8]); }
            if a == 5 && b == 6 { assert(env[a].0[8] != env[b].0[8]); }
            if a == 9 && b == 10 { assert(env[a].0[18] != env[b].0[18]); }
        }
    }
    lemma_env_value_at(env, 0);
    lemma_env_value_at(env, 1);
    lemma_env_value_at(env, 2);
    lemma_env_value_at(env, 3);
    lemma_env_value_at(env, 4);
    lemma_env_value_at(env, 5);
    lemma_env_value_at(env, 6);
    lemma_env_value_at(env, 7);
    lemma_env_value_at(env, 8);
    lemma_env_value_at(env, 9);
    lemma_env_value_at(env, 10);
    lemma_env_value_at(env, 11);
}

/// An entry whose name no earlier entry has is the one `env_value` finds.
proof fn lemma_env_value_at(env: Seq<(Seq<char>, Seq<char>)>, k: int)
    requires
        0 <= k < env.len(),
        forall|a: int| 0 <= a < k ==> #[trigger] env[a].0 != env[k].0,
    ensures
        env_value(env, env[k].0) == Some(env[k].1),
    decreases k,
{
    if k > 0 {
        let rest = env.drop_first();
        assert forall|a: int| 0 <= a < k - 1 implies #[trigger] rest[a].0 != rest[k - 1].0 by {
            assert(rest[a] == env[a + 1]);
        }
        lemma_env_value_at(rest, k - 1);
        assert(rest[k - 1] == env[k]);
        assert(env[0].0 != env[k].0);
    }
}

/// What to start for a script run.
pub struct ScriptInvocation {
    pub program: String,
    pub args: Vec<String>,
    pub env: Vec<(String, String)>,
}

/// The views of a sequence of texts.
pub open spec fn text_views(v: Seq<String>) -> Seq<Seq<char>> {
    v.map_values(|s: String| s@)
}

/// The views of a sequence of pairs of texts.
pub open spec fn pair_views(v: Seq<(String, String)>) -> Seq<(Seq<char>, Seq<char>)> {
    v.map_values(|p: (String, String)| (p.0@, p.1@))
}

/// Why a script could not be started.
#[derive(Debug, Clone, Copy, PartialEq, Eq, Structural)]
pub enum ScriptError {
    /// The command holds no word.
    EmptyCommand,
}

/// Runs the on-completion script for torrents.
pub struct ScriptRunner {
    command: String,
}

impl ScriptRunner {
    /// The command line the runner was made with.
    pub closed spec fn command_text(&self) -> Seq<char> {
        self.command@
    }

    /// A runner for a command line.
    pub fn new(command: String) -> (r: Self)
        ensures
            r.command_text() == command@,
    {
        Self { command }
    }

    /// The command line as configured.
    pub fn command(&self) -> (r: &str)
        ensures
            r@ == self.command_text(),
    {
        self.command.as_str()
    }

    /// Substitutes the placeholders of one argument.
    pub fn process_arg(arg: &str, torrent: &Torrent, files_len: usize) -> (r: String)
        ensures
            r@ == substituted(arg@, torrent@, files_len as nat),
    {
        proof {
            reveal_strlit("%N");
            reveal_strlit("%L");
            reveal_strlit("%G");
            reveal_strlit("%F");
            reveal_strlit("%R");
            reveal_strlit("%D");
            reveal_strlit("%C");
            reveal_strlit("%Z");
            reveal_strlit("%T");
            reveal_strlit("%I");
            reveal_strlit("%J");
            reveal_strlit("%K");
        }
        let a = chars_of(arg);
        let a = Self::replace_one(&a, "%N", torrent.name.as_str());
        let a = Self::replace_one(&a, "%L", torrent.category.as_str());
        let a = Self::replace_one(&a, "%G", torrent.tags.as_str());
        let a = Self::replace_one(&a, "%F", torrent.content_path.as_str());
        let a = Self::replace_one(&a, "%R", torrent.root_path.as_str());
        let a = Self::replace_one(&a, "%D", torrent.save_path.as_str());
        let files = decimal_string(files_len as u64);
        let a = Self::replace_one(&a, "%C", files.as_str());
        let size = decimal_string(torrent.size);
        let a = Self::replace_one(&a, "%Z", size.as_str());
        let a = Self::replace_one(&a, "%T", torrent.tracker.as_str());
        let v1 = dash_or(&torrent.infohash_v1);
        let a = Self::replace_one(&a, "%I", v1.as_str());
        let v2 = dash_or(&torrent.infohash_v2);
        let a = Self::replace_one(&a, "%J", v2.as_str());
        let a = Self::replace_one(&a, "%K", torrent.hash.as_str());
        string_of(&a)
    }

    fn replace_one(a: &Vec<char>, pat: &str, rep: &str) -> (r: Vec<char>)
        requires
            pat@.len() == 2,
        ensures
            r@ == replace_all(a@, pat@, rep@),
    {
        let p = chars_of(pat);
        let q = chars_of(rep);
        replace_chars(a, &p, &q)
    }

    /// The program, arguments and environment for running the script on a
    /// torrent with `files_len` files; an error where the command has no word.
    pub fn invocation(&self, torrent: &Torrent, files_len: usize) -> (r: Result<ScriptInvocation, ScriptError>)
        ensures
            words(self.command_text()).len() == 0 <==> r is Err,
            r matches Ok(inv) ==> {
                let ws = words(self.command_text());
                &&& inv.program@ == ws[0]
                &&& text_views(inv.args@) == ws.drop_first().map_values(
                    |w: Seq<char>| substituted(w, torrent@, files_len as nat),
                )
                &&& pair_views(inv.env@) == script_env(torrent@, files_len as nat)
            },
    {
        let cv = chars_of(self.command.as_str());
        let ws = split_words(&cv);
        if ws.len() == 0 {
            return Err(ScriptError::EmptyCommand);
        }
        let program = string_of(&ws[0]);
        let ghost wv = char_views(ws@);
        let mut args: Vec<String> = Vec::new();
        let mut k: usize = 1;
        while k < ws.len()
            invariant
                1 <= k <= ws.len(),
                wv == char_views(ws@),
                text_views(args@) == wv.drop_first().take(k - 1).map_values(
                    |w: Seq<char>| substituted(w, torrent@, files_len as nat),
                ),
            decreases ws.len() - k,
        {
            let word = string_of(&ws[k]);
            let arg = Self::process_arg(word.as_str(), torrent, files_len);
            let ghost before = args@;
            args.push(arg);
            proof {
                assert(wv.drop_first().take(k as int) =~= wv.drop_first().take(k - 1).push(wv[k as int]));
                assert(text_views(args@) =~= text_views(before).push(arg@));
                assert(text_views(args@) =~= wv.drop_first().take(k as int).map_values(
                    |w: Seq<char>| substituted(w, torrent@, files_len as nat),
                ));
            }
            k = k + 1;
        }
        assert(wv.drop_first().take(ws.len() - 1) =~= wv.drop_first());
        let env = script_environment(torrent, files_len);
        Ok(ScriptInvocation { program, args, env })
    }
}

/// An optional text, or `-`.
pub fn dash_or(o: &Option<String>) -> (r: String)
    ensures
        r@ == or_dash(opt_view(*o)),
{
    match o {
        Some(s) => s.clone(),
        None => owned("-"),
    }
}

/// The environment of a script run.
pub fn script_environment(torrent: &Torrent, files_len: usize) -> (r: Vec<(String, String)>)
    ensures
        pair_views(r@) == script_env(torrent@, files_len as nat),
{
    let mut env: Vec<(String, String)> = Vec::new();
    env.push((owned("TORRENT_NAME"), torrent.name.clone()));
    env.push((owned("TORRENT_CATEGORY"), torrent.category.clone()));
    env.push((owned("TORRENT_TAGS"), torrent.tags.clone()));
    env.push((owned("TORRENT_CONTENT_PATH"), torrent.content_path.clone()));
    env.push((owned("TORRENT_ROOT_PATH"), torrent.root_path.clone()));
    env.push((owned("TORRENT_SAVE_PATH"), torrent.save_path.clone()));
    env.push((owned("TORRENT_NUM_FILES"), decimal_string(files_len as u64)));
    env.push((owned("TORRENT_SIZE"), decimal_string(torrent.size)));
    env.push((owned("TORRENT_TRACKER"), torrent.tracker.clone()));
    env.push((owned("TORRENT_INFOHASH_V1"), dash_or(&torrent.infohash_v1)));
    env.push((owned("TORRENT_INFOHASH_V2"), dash_or(&torrent.infohash_v2)));
    env.push((owned("TORRENT_ID"), torrent.hash.clone()));
    assert(pair_views(env@) =~= script_env(torrent@, files_len as nat));
    env
}

impl ScriptResult {
    /// The record of a run as it begins, started and completed now: the
    /// torrent's name and hash and the script, no output, no exit code, and
    /// no success yet. A blank command ends the run with this record.
    pub fn started(torrent: &Torrent, script: &str) -> (r: ScriptResult)
        ensures
            r@.name == torrent@.name,
            r@.hash == torrent@.hash,
            r@.script == script@,
            r@.stdout.len() == 0,
            r@.stderr.len() == 0,
            !r@.success,
            r@.exit_code is None,
            r@.started_at == r@.completed_at,
    {
        let mut r = ScriptResult::default();
        r.name = torrent.name.clone();
        r.hash = torrent.hash.clone();
        r.script = owned(script);
        r
    }

    /// The record of a run that could not take place: the torrent's name and
    /// hash, the script, and the error text as its standard error.
    pub fn failed(torrent: &Torrent, script: &str, message: &str) -> (r: ScriptResult)
        ensures
            r@.name == torrent@.name,
            r@.hash == torrent@.hash,
            r@.script == script@,
            r@.stdout.len() == 0,
            r@.stderr == message@,
            !r@.success,
            r@.exit_code is None,
            r@.started_at == r@.completed_at,
    {
        let mut r = ScriptResult::default();
        r.name = torrent.name.clone();
        r.hash = torrent.hash.clone();
        r.script = owned(script);
        r.stderr = owned(message);
        r
    }
}

/// Replacing a pattern that starts with a character the text lacks leaves
/// the text as it is.
proof fn lemma_replace_absent(s: Seq<char>, pat: Seq<char>, rep: Seq<char>)
    requires
        pat.len() > 0,
        forall|i: int| 0 <= i < s.len() ==> s[i] != pat[0],
    ensures
        replace_all(s, pat, rep) == s,
    decreases s.len(),
{
    if s.len() >= pat.len() {
        assert(s.take(pat.len() as int)[0] != pat[0]);
        lemma_replace_absent(s.drop_first(), pat, rep);
        assert(seq![s[0]] + s.drop_first() =~= s);
    }
}

/// Whether a text holds no `%`.
pub open spec fn no_percent(s: Seq<char>) -> bool {
    forall|i: int| 0 <= i < s.len() ==> s[i] != '%'
}

/// Whether none of the texts a torrent lends to the placeholders holds a
/// `%` (so no substitution reaches into another's value).
pub open spec fn plain_fields(t: TorrentView) -> bool {
    &&& no_percent(t.name)
    &&& no_percent(t.category)
    &&& no_percent(t.tags)
    &&& no_percent(t.content_path)
    &&& no_percent(t.root_path)
    &&& no_percent(t.save_path)
    &&& no_percent(t.tracker)
    &&& no_percent(t.hash)
    &&& (t.infohash_v1 matches Some(h) ==> no_percent(h))
    &&& (t.infohash_v2 matches Some(h) ==> no_percent(h))
}

proof fn lemma_decimal_no_percent(n: nat)
    ensures
        no_percent(decimal(n)),
    decreases n,
{
    if n >= 10 {
        lemma_decimal_no_percent(n / 10);
    }
}

proof fn lemma_placeholder_replace(x: char, y: char, rep: Seq<char>)
    ensures
        replace_all(seq!['%', x], seq!['%', y], rep) == if x == y { rep } else { seq!['%', x] },
{
    let p = seq!['%', x];
    let q = seq!['%', y];
    assert(p.take(2) =~= p);
    if x == y {
        assert(p =~= q);
        assert(replace_all(p.skip(2), q, rep) == p.skip(2));
        assert(p.skip(2) =~= Seq::<char>::empty());
        assert(rep + Seq::<char>::empty() =~= rep);
    } else {
        assert(p != q) by {
            assert(p[1] != q[1]);
        }
        assert(p.drop_first() =~= seq![x]);
        assert(replace_all(seq![x], q, rep) == seq![x]);
        assert(seq![p[0]] + seq![x] =~= p);
    }
}

proof fn lemma_plain_unchanged(s: Seq<char>, y: char, rep: Seq<char>)
    requires
        no_percent(s),
    ensures
        replace_all(s, seq!['%', y], rep) == s,
{
    lemma_replace_absent(s, seq!['%', y], rep);
}

/// A lone placeholder argument becomes the torrent field it stands for:
/// `%N` the name, `%L` the category, `%G` the tags, `%F`, `%R` and `%D` the
/// content, root and save paths, `%C` the number of files, `%Z` the size,
/// `%T` the tracker, `%I` and `%J` the info hashes (`-` where absent), `%K`
/// the torrent id; so long as no field holds a `%` of its own.
pub proof fn law_placeholders_name_their_fields(t: TorrentView, files_len: nat)
    requires
        plain_fields(t),
    ensures
        substituted("%N"@, t, files_len) == t.name,
        substituted("%L"@, t, files_len) == t.category,
        substituted("%G"@, t, files_len) == t.tags,
        substituted("%F"@, t, files_len) == t.content_path,
        substituted("%R"@, t, files_len) == t.root_path,
        substituted("%D"@, t, files_len) == t.save_path,
        substituted("%C"@, t, files_len) == decimal(files_len),
        substituted("%Z"@, t, files_len) == decimal(t.size as nat),
        substituted("%T"@, t, files_len) == t.tracker,
        substituted("%I"@, t, files_len) == or_dash(t.infohash_v1),
        substituted("%J"@, t, files_len) == or_dash(t.infohash_v2),
        substituted("%K"@, t, files_len) == t.hash,
{
    reveal_strlit("%N");
    reveal_strlit("%L");
    reveal_strlit("%G");
    reveal_strlit("%F");
    reveal_strlit("%R");
    reveal_strlit("%D");
    reveal_strlit("%C");
    reveal_strlit("%Z");
    reveal_strlit("%T");
    reveal_strlit("%I");
    reveal_strlit("%J");
    reveal_strlit("%K");
    reveal_strlit("-");
    assert("%N"@ =~= seq!['%', 'N']);
    assert("%L"@ =~= seq!['%', 'L']);
    assert("%G"@ =~= seq!['%', 'G']);
    assert("%F"@ =~= seq!['%', 'F']);
    assert("%R"@ =~= seq!['%', 'R']);
    assert("%D"@ =~= seq!['%', 'D']);
    assert("%C"@ =~= seq!['%', 'C']);
    assert("%Z"@ =~= seq!['%', 'Z']);
    assert("%T"@ =~= seq!['%', 'T']);
    assert("%I"@ =~= seq!['%', 'I']);
    assert("%J"@ =~= seq!['%', 'J']);
    assert("%K"@ =~= seq!['%', 'K']);
    lemma_decimal_no_percent(files_len);
    lemma_decimal_no_percent(t.size as nat);
    assert(no_percent(or_dash(t.infohash_v1)));
    assert(no_percent(or_dash(t.infohash_v2)));
    lemma_placeholder_replace('N', 'N', t.name);
    lemma_plain_unchanged(t.name, 'L', t.category);
    lemma_plain_unchanged(t.name, 'G', t.tags);
    lemma_plain_unchanged(t.name, 'F', t.content_path);
    lemma_plain_unchanged(t.name, 'R', t.root_path);
    lemma_plain_unchanged(t.name, 'D', t.save_path);
    lemma_plain_unchanged(t.name, 'C', decimal(files_len));
    lemma_plain_unchanged(t.name, 'Z', decimal(t.size as nat));
    lemma_plain_unchanged(t.name, 'T', t.tracker);
    lemma_plain_unchanged(t.name, 'I', or_dash(t.infohash_v1));
    lemma_plain_unchanged(t.name, 'J', or_dash(t.infohash_v2));
    lemma_plain_unchanged(t.name, 'K', t.hash);
    lemma_placeholder_replace('L', 'N', t.name);
    lemma_placeholder_replace('L', 'L', t.category);
    lemma_plain_unchanged(t.category, 'G', t.tags);
    lemma_plain_unchanged(t.category, 'F', t.content_path);
    lemma_plain_unchanged(t.category, 'R', t.root_path);
    lemma_plain_unchanged(t.category, 'D', t.save_path);
    lemma_plain_unchanged(t.category, 'C', decimal(files_len));
    lemma_plain_unchanged(t.category, 'Z', decimal(t.size as nat));
    lemma_plain_unchanged(t.category, 'T', t.tracker);
    lemma_plain_unchanged(t.category, 'I', or_dash(t.infohash_v1));
    lemma_plain_unchanged(t.category, 'J', or_dash(t.infohash_v2));
    lemma_plain_unchanged(t.category, 'K', t.hash);
    lemma_placeholder_replace('G', 'N', t.name);
    lemma_placeholder_replace('G', 'L', t.category);
    lemma_placeholder_replace('G', 'G', t.tags);
    lemma_plain_unchanged(t.tags, 'F', t.content_path);
    lemma_plain_unchanged(t.tags, 'R', t.root_path);
    lemma_plain_unchanged(t.tags, 'D', t.save_path);
    lemma_plain_unchanged(t.tags, 'C', decimal(files_len));
    lemma_plain_unchanged(t.tags, 'Z', decimal(t.size as nat));
    lemma_plain_unchanged(t.tags, 'T', t.tracker);
    lemma_plain_unchanged(t.tags, 'I', or_dash(t.infohash_v1));
    lemma_plain_unchanged(t.tags, 'J', or_dash(t.infohash_v2));
    lemma_plain_unchanged(t.tags, 'K', t.hash);
    lemma_placeholder_replace('F', 'N', t.name);
    lemma_placeholder_replace('F', 'L', t.category);
    lemma_placeholder_replace('F', 'G', t.tags);
    lemma_placeholder_replace('F', 'F', t.content_path);
    lemma_plain_unchanged(t.content_path, 'R', t.root_path);
    lemma_plain_unchanged(t.content_path, 'D', t.save_path);
    lemma_plain_unchanged(t.content_path, 'C', decimal(files_len));
    lemma_plain_unchanged(t.content_path, 'Z', decimal(t.size as nat));
    lemma_plain_unchanged(t.content_path, 'T', t.tracker);
    lemma_plain_unchanged(t.content_path, 'I', or_dash(t.infohash_v1));
    lemma_plain_unchanged(t.content_path, 'J', or_dash(t.infohash_v2));
    lemma_plain_unchanged(t.content_path, 'K', t.hash);
    lemma_placeholder_replace('R', 'N', t.name);
    lemma_placeholder_replace('R', 'L', t.category);
    lemma_placeholder_replace('R', 'G', t.tags);
    lemma_placeholder_replace('R', 'F', t.content_path);
    lemma_placeholder_replace('R', 'R', t.root_path);
    lemma_plain_unchanged(t.root_path, 'D', t.save_path);
    lemma_plain_unchanged(t.root_path, 'C', decimal(files_len));
    lemma_plain_unchanged(t.root_path, 'Z', decimal(t.size as nat));
    lemma_plain_unchanged(t.root_path, 'T', t.tracker);
    lemma_plain_unchanged(t.root_path, 'I', or_dash(t.infohash_v1));
    lemma_plain_unchanged(t.root_path, 'J', or_dash(t.infohash_v2));
    lemma_plain_unchanged(t.root_path, 'K', t.hash);
    lemma_placeholder_replace('D', 'N', t.name);
    lemma_placeholder_replace('D', 'L', t.category);
    lemma_placeholder_replace('D', 'G', t.tags);
    lemma_placeholder_replace('D', 'F', t.content_path);
    lemma_placeholder_replace('D', 'R', t.root_path);
    lemma_placeholder_replace('D', 'D', t.save_path);
    lemma_plain_unchanged(t.save_path, 'C', decimal(files_len));
    lemma_plain_unchanged(t.save_path, 'Z', decimal(t.size as nat));
    lemma_plain_unchanged(t.save_path, 'T', t.tracker);
    lemma_plain_unchanged(t.save_path, 'I', or_dash(t.infohash_v1));
    lemma_plain_unchanged(t.save_path, 'J', or_dash(t.infohash_v2));
    lemma_plain_unchanged(t.save_path, 'K', t.hash);
    lemma_placeholder_replace('C', 'N', t.name);
    lemma_placeholder_replace('C', 'L', t.category);
    lemma_placeholder_replace('C', 'G', t.tags);
    lemma_placeholder_replace('C', 'F', t.content_path);
    lemma_placeholder_replace('C', 'R', t.root_path);
    lemma_placeholder_replace('C', 'D', t.save_path);
    lemma_placeholder_replace('C', 'C', decimal(files_len));
    lemma_plain_unchanged(decimal(files_len), 'Z', decimal(t.size as nat));
    lemma_plain_unchanged(decimal(files_len), 'T', t.tracker);
    lemma_plain_unchanged(decimal(files_len), 'I', or_dash(t.infohash_v1));
    lemma_plain_unchanged(decimal(files_len), 'J', or_dash(t.infohash_v2));
    lemma_plain_unchanged(decimal(files_len), 'K', t.hash);
    lemma_placeholder_replace('Z', 'N', t.name);
    lemma_placeholder_replace('Z', 'L', t.category);
    lemma_placeholder_replace('Z', 'G', t.tags);
    lemma_placeholder_replace('Z', 'F', t.content_path);
    lemma_placeholder_replace('Z', 'R', t.root_path);
    lemma_placeholder_replace('Z', 'D', t.save_path);
    lemma_placeholder_replace('Z', 'C', decimal(files_len));
    lemma_placeholder_replace('Z', 'Z', decimal(t.size as nat));
    lemma_plain_unchanged(decimal(t.size as nat), 'T', t.tracker);
    lemma_plain_unchanged(decimal(t.size as nat), 'I', or_dash(t.infohash_v1));
    lemma_plain_unchanged(decimal(t.size as nat), 'J', or_dash(t.infohash_v2));
    lemma_plain_unchanged(decimal(t.size as nat), 'K', t.hash);
    lemma_placeholder_replace('T', 'N', t.name);
    lemma_placeholder_replace('T', 'L', t.category);
    lemma_placeholder_replace('T', 'G', t.tags);
    lemma_placeholder_replace('T', 'F', t.content_path);
    lemma_placeholder_replace('T', 'R', t.root_path);
    lemma_placeholder_replace('T', 'D', t.save_path);
    lemma_placeholder_replace('T', 'C', decimal(files_len));
    lemma_placeholder_replace('T', 'Z', decimal(t.size as nat));
    lemma_placeholder_replace('T', 'T', t.tracker);
    lemma_plain_unchanged(t.tracker, 'I', or_dash(t.infohash_v1));
    lemma_plain_unchanged(t.tracker, 'J', or_dash(t.infohash_v2));
    lemma_plain_unchanged(t.tracker, 'K', t.hash);
    lemma_placeholder_replace('I', 'N', t.name);
    lemma_placeholder_replace('I', 'L', t.category);
    lemma_placeholder_replace('I', 'G', t.tags);
    lemma_placeholder_replace('I', 'F', t.content_path);
    lemma_placeholder_replace('I', 'R', t.root_path);
    lemma_placeholder_replace('I', 'D', t.save_path);
    lemma_placeholder_replace('I', 'C', decimal(files_len));
    lemma_placeholder_replace('I', 'Z', decimal(t.size as nat));
    lemma_placeholder_replace('I', 'T', t.tracker);
    lemma_placeholder_replace('I', 'I', or_dash(t.infohash_v1));
    lemma_plain_unchanged(or_dash(t.infohash_v1), 'J', or_dash(t.infohash_v2));
    lemma_plain_unchanged(or_dash(t.infohash_v1), 'K', t.hash);
    lemma_placeholder_replace('J', 'N', t.name);
    lemma_placeholder_replace('J', 'L', t.category);
    lemma_placeholder_replace('J', 'G', t.tags);
    lemma_placeholder_replace('J', 'F', t.content_path);
    lemma_placeholder_replace('J', 'R', t.root_path);
    lemma_placeholder_replace('J', 'D', t.save_path);
    lemma_placeholder_replace('J', 'C', decimal(files_len));
    lemma_placeholder_replace('J', 'Z', decimal(t.size as nat));
    lemma_placeholder_replace('J', 'T', t.tracker);
    lemma_placeholder_replace('J', 'I', or_dash(t.infohash_v1));
    lemma_placeholder_replace('J', 'J', or_dash(t.infohash_v2));
    lemma_plain_unchanged(or_dash(t.infohash_v2), 'K', t.hash);
    lemma_placeholder_replace('K', 'N', t.name);
    lemma_placeholder_replace('K', 'L', t.category);
    lemma_placeholder_replace('K', 'G', t.tags);
    lemma_placeholder_replace('K', 'F', t.content_path);
    lemma_placeholder_replace('K', 'R', t.root_path);
    lemma_placeholder_replace('K', 'D', t.save_path);
    lemma_placeholder_replace('K', 'C', decimal(files_len));
    lemma_placeholder_replace('K', 'Z', decimal(t.size as nat));
    lemma_placeholder_replace('K', 'T', t.tracker);
    lemma_placeholder_replace('K', 'I', or_dash(t.infohash_v1));
    lemma_placeholder_replace('K', 'J', or_dash(t.infohash_v2));
    lemma_placeholder_replace('K', 'K', t.hash);
}

/// An argument without `%` reaches the script as it is.
pub proof fn law_plain_argument_unchanged(arg: Seq<char>, t: TorrentView, files_len: nat)
    requires
        forall|i: int| 0 <= i < arg.len() ==> arg[i] != '%',
    ensures
        substituted(arg, t, files_len) == arg,
{
    reveal_strlit("%N");
    reveal_strlit("%L");
    reveal_strlit("%G");
    reveal_strlit("%F");
    reveal_strlit("%R");
    reveal_strlit("%D");
    reveal_strlit("%C");
    reveal_strlit("%Z");
    reveal_strlit("%T");
    reveal_strlit("%I");
    reveal_strlit("%J");
    reveal_strlit("%K");
    lemma_replace_absent(arg, "%N"@, t.name);
    lemma_replace_absent(arg, "%L"@, t.category);
    lemma_replace_absent(arg, "%G"@, t.tags);
    lemma_replace_absent(arg, "%F"@, t.content_path);
    lemma_replace_absent(arg, "%R"@, t.root_path);
    lemma_replace_absent(arg, "%D"@, t.save_path);
    lemma_replace_absent(arg, "%C"@, decimal(files_len));
    lemma_replace_absent(arg, "%Z"@, decimal(t.size as nat));
    lemma_replace_absent(arg, "%T"@, t.tracker);
    lemma_replace_absent(arg, "%I"@, or_dash(t.infohash_v1));
    lemma_replace_absent(arg, "%J"@, or_dash(t.infohash_v2));
    lemma_replace_absent(arg, "%K"@, t.hash);
}

} // verus!
