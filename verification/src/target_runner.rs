//! Resolution of the target runner: the wrapper command, if any, through
//! which test binaries for a platform triple are invoked.
//!
//! Resolution is pure: it consumes explicit snapshots of the environment and
//! of the configuration, captured once at run start.  The environment is
//! consulted first — a variable `CARGO_TARGET_<TRIPLE>_RUNNER`, with the
//! triple upper-cased and `-` turned into `_` — and only when no such
//! variable exists does the configuration entry for the triple apply.  A
//! match whose value holds no word at all is an error, never treated as
//! direct invocation; no match anywhere means direct invocation.

use vstd::prelude::*;
use vstd::string::StrSliceExecFns;
use vstd::string::StringExecFns;
use crate::errors::TargetRunnerError;
use crate::helpers::{str_eq, str_has_prefix, views};

verus! {

/// A resolved wrapper command: a binary and its leading arguments.
#[derive(Clone, Debug)]
pub struct PlatformRunner {
    /// The runner binary.
    pub binary: String,
    /// Arguments passed before the test binary.
    pub args: Vec<String>,
}

/// One captured environment variable.
#[derive(Clone, Debug)]
pub struct EnvVar {
    /// The variable's name.
    pub key: String,
    /// The variable's value.
    pub value: String,
}

/// One captured `target.<triple>.runner` configuration entry.
#[derive(Clone, Debug)]
pub struct RunnerConfigEntry {
    /// The platform triple the entry applies to.
    pub triple: String,
    /// The configured runner command line.
    pub runner: String,
}

/// The code point a triple character contributes to the environment key:
/// lower-case ASCII is upper-cased and `-` becomes `_`.
pub open spec fn norm_cp(c: char) -> u32 {
    if ('a' as u32) <= (c as u32) && (c as u32) <= ('z' as u32) {
        ((c as u32) - 32) as u32
    } else if c == '-' {
        '_' as u32
    } else {
        c as u32
    }
}

/// Whether `key` is the runner environment variable for `triple`:
/// `CARGO_TARGET_<TRIPLE>_RUNNER`.
pub open spec fn is_runner_env_key(key: Seq<char>, triple: Seq<char>) -> bool {
    &&& key.len() == 13 + triple.len() + 7
    &&& key.take(13) == "CARGO_TARGET_"@
    &&& forall|i: int| 0 <= i < triple.len() ==> (#[trigger] key[13 + i] as u32) == norm_cp(
        triple[i],
    )
    &&& key.skip(13 + triple.len() as int) == "_RUNNER"@
}

/// Decides `is_runner_env_key`.
pub fn matches_runner_env_key(key: &str, triple: &str) -> (r: bool)
    ensures
        r == is_runner_env_key(key@, triple@),
{
    proof {
        reveal_strlit("CARGO_TARGET_");
        reveal_strlit("_RUNNER");
    }
    let kl = key.unicode_len();
    let tl = triple.unicode_len();
    if kl < 20 || kl - 20 != tl {
        return false;
    }
    if !str_has_prefix(key, "CARGO_TARGET_") {
        return false;
    }
    let mut i: usize = 0;
    while i < tl
        invariant
            kl == key@.len(),
            tl == triple@.len(),
            kl == 20 + tl,
            i <= tl,
            forall|j: int| 0 <= j < i ==> (#[trigger] key@[13 + j] as u32) == norm_cp(triple@[j]),
        decreases tl - i,
    {
        let tc = triple.get_char(i);
        let tcu = tc as u32;
        let expect: u32 = if tcu >= 97 && tcu <= 122 {
            tcu - 32
        } else if tc == '-' {
            95
        } else {
            tcu
        };
        let kc = key.get_char(13 + i) as u32;
        if kc != expect {
            return false;
        }
        i += 1;
    }
    let mut j: usize = 0;
    while j < 7
        invariant
            kl == key@.len(),
            tl == triple@.len(),
            kl == 20 + tl,
            j <= 7,
            forall|m: int| 0 <= m < j ==> key@[13 + tl + m] == "_RUNNER"@[m],
        decreases 7 - j,
    {
        proof {
            reveal_strlit("_RUNNER");
        }
        if key.get_char(13 + tl + j) != "_RUNNER".get_char(j) {
            proof {
                assert(key@.skip(13 + tl as int)[j as int] != "_RUNNER"@[j as int]);
            }
            return false;
        }
        j += 1;
    }
    proof {
        assert(key@.skip(13 + tl as int) =~= "_RUNNER"@);
    }
    true
}

/// Splitting a command line on spaces, accumulating the current word.
pub open spec fn split_ws_acc(s: Seq<char>, cur: Seq<char>) -> Seq<Seq<char>>
    decreases s.len(),
{
    if s.len() == 0 {
        if cur.len() == 0 {
            Seq::empty()
        } else {
            seq![cur]
        }
    } else if s[0] == ' ' {
        if cur.len() == 0 {
            split_ws_acc(s.drop_first(), Seq::empty())
        } else {
            seq![cur] + split_ws_acc(s.drop_first(), Seq::empty())
        }
    } else {
        split_ws_acc(s.drop_first(), cur.push(s[0]))
    }
}

/// The words of a command line: maximal runs of non-space characters.
pub open spec fn split_ws(s: Seq<char>) -> Seq<Seq<char>> {
    split_ws_acc(s, Seq::empty())
}

proof fn lemma_split_ws_acc_skip(s: Seq<char>, i: int, ws: int)
    requires
        0 <= ws <= i < s.len(),
        forall|j: int| ws <= j < i ==> s[j] != ' ',
    ensures
        s[i as int] != ' ' ==> split_ws_acc(s.skip(i), s.subrange(ws, i)) == split_ws_acc(
            s.skip(i + 1),
            s.subrange(ws, i + 1),
        ),
        s[i as int] == ' ' && i > ws ==> split_ws_acc(s.skip(i), s.subrange(ws, i)) == seq![
            s.subrange(ws, i),
        ] + split_ws_acc(s.skip(i + 1), Seq::empty()),
        s[i as int] == ' ' && i == ws ==> split_ws_acc(s.skip(i), s.subrange(ws, i))
            == split_ws_acc(s.skip(i + 1), Seq::empty()),
{
    assert(s.skip(i)[0] == s[i as int]);
    assert(s.skip(i).drop_first() =~= s.skip(i + 1));
    if s[i as int] != ' ' {
        assert(s.subrange(ws, i).push(s[i as int]) =~= s.subrange(ws, i + 1));
    } else if i == ws {
        assert(s.subrange(ws, i) =~= Seq::<char>::empty());
    }
}

/// Splits a string into its space-separated words.
pub fn split_whitespace_words(s: &str) -> (r: Vec<String>)
    ensures
        views(r@) == split_ws(s@),
{
    let n = s.unicode_len();
    let mut out: Vec<String> = Vec::new();
    let mut ws: usize = 0;
    let mut i: usize = 0;
    proof {
        assert(s@.skip(0) =~= s@);
        assert(s@.subrange(0, 0) =~= Seq::<char>::empty());
        assert(views(out@) =~= Seq::<Seq<char>>::empty());
    }
    while i < n
        invariant
            n == s@.len(),
            ws <= i <= n,
            forall|j: int| ws <= j < i ==> s@[j] != ' ',
            split_ws(s@) == views(out@) + split_ws_acc(
                s@.skip(i as int),
                s@.subrange(ws as int, i as int),
            ),
        decreases n - i,
    {
        let c = s.get_char(i);
        proof {
            lemma_split_ws_acc_skip(s@, i as int, ws as int);
        }
        if c == ' ' {
            if i > ws {
                let w = s.substring_char(ws, i).to_owned();
                let ghost out0 = out@;
                out.push(w);
                proof {
                    assert(views(out@) =~= views(out0).push(w@));
                    assert(w@ == s@.subrange(ws as int, i as int));
                    assert(views(out@) + split_ws_acc(s@.skip(i + 1), Seq::empty()) =~= views(
                        out0,
                    ) + (seq![s@.subrange(ws as int, i as int)] + split_ws_acc(
                        s@.skip(i + 1),
                        Seq::empty(),
                    )));
                }
            }
            i += 1;
            ws = i;
            proof {
                assert(s@.subrange(ws as int, i as int) =~= Seq::<char>::empty());
            }
        } else {
            i += 1;
        }
    }
    if n > ws {
        let w = s.substring_char(ws, n).to_owned();
        let ghost out0 = out@;
        out.push(w);
        proof {
            assert(s@.skip(n as int) =~= Seq::<char>::empty());
            assert(views(out@) =~= views(out0).push(w@));
            assert(w@ == s@.subrange(ws as int, n as int));
            assert(views(out0) + split_ws_acc(s@.skip(n as int), s@.subrange(ws as int, n as int))
                =~= views(out@));
        }
    } else {
        proof {
            assert(s@.skip(n as int) =~= Seq::<char>::empty());
            assert(s@.subrange(ws as int, n as int) =~= Seq::<char>::empty());
            assert(views(out@) + split_ws_acc(s@.skip(n as int), Seq::<char>::empty()) =~= views(
                out@,
            ));
        }
    }
    out
}

/// The first environment variable that is the runner key for `triple`.
pub open spec fn spec_env_match(env: Seq<EnvVar>, triple: Seq<char>) -> Option<nat>
    decreases env.len(),
{
    if env.len() == 0 {
        None
    } else if is_runner_env_key(env[0].key@, triple) {
        Some(0nat)
    } else {
        match spec_env_match(env.drop_first(), triple) {
            Some(k) => Some((k + 1) as nat),
            None => None,
        }
    }
}

/// The first configuration entry for `triple`.
pub open spec fn spec_config_match(config: Seq<RunnerConfigEntry>, triple: Seq<char>) -> Option<
    nat,
>
    decreases config.len(),
{
    if config.len() == 0 {
        None
    } else if config[0].triple@ == triple {
        Some(0nat)
    } else {
        match spec_config_match(config.drop_first(), triple) {
            Some(k) => Some((k + 1) as nat),
            None => None,
        }
    }
}

proof fn lemma_env_match_found(env: Seq<EnvVar>, triple: Seq<char>, k: int)
    requires
        0 <= k < env.len(),
        is_runner_env_key(env[k].key@, triple),
        forall|j: int| 0 <= j < k ==> !is_runner_env_key((#[trigger] env[j]).key@, triple),
    ensures
        spec_env_match(env, triple) == Some(k as nat),
    decreases k,
{
    if k > 0 {
        lemma_env_match_found(env.drop_first(), triple, k - 1);
    }
}

proof fn lemma_env_match_none(env: Seq<EnvVar>, triple: Seq<char>)
    requires
        forall|j: int|
            0 <= j < env.len() ==> !is_runner_env_key((#[trigger] env[j]).key@, triple),
    ensures
        spec_env_match(env, triple) is None,
    decreases env.len(),
{
    if env.len() > 0 {
        lemma_env_match_none(env.drop_first(), triple);
    }
}

proof fn lemma_config_match_found(config: Seq<RunnerConfigEntry>, triple: Seq<char>, k: int)
    requires
        0 <= k < config.len(),
        config[k].triple@ == triple,
        forall|j: int| 0 <= j < k ==> (#[trigger] config[j]).triple@ != triple,
    ensures
        spec_config_match(config, triple) == Some(k as nat),
    decreases k,
{
    if k > 0 {
        lemma_config_match_found(config.drop_first(), triple, k - 1);
    }
}

proof fn lemma_config_match_none(config: Seq<RunnerConfigEntry>, triple: Seq<char>)
    requires
        forall|j: int| 0 <= j < config.len() ==> (#[trigger] config[j]).triple@ != triple,
    ensures
        spec_config_match(config, triple) is None,
    decreases config.len(),
{
    if config.len() > 0 {
        lemma_config_match_none(config.drop_first(), triple);
    }
}

/// The configuration key path for a triple's runner entry.
pub open spec fn runner_config_key(triple: Seq<char>) -> Seq<char> {
    "target."@ + triple + ".runner"@
}

/// The key and value that resolution selects, if any: the environment
/// override when one exists, else the configuration entry.  This is the
/// precedence policy, fixed here: the environment wins.
pub open spec fn spec_resolution(
    triple: Seq<char>,
    env: Seq<EnvVar>,
    config: Seq<RunnerConfigEntry>,
) -> Option<(Seq<char>, Seq<char>)> {
    match spec_env_match(env, triple) {
        Some(k) => Some((env[k as int].key@, env[k as int].value@)),
        None => match spec_config_match(config, triple) {
            Some(k) => Some((runner_config_key(triple), config[k as int].runner@)),
            None => None,
        },
    }
}

/// Target-runner resolution precedence: when an environment override exists
/// for the triple, the selected key and value do not depend on the
/// configuration at all.
pub proof fn lemma_env_overrides_config(
    triple: Seq<char>,
    env: Seq<EnvVar>,
    config1: Seq<RunnerConfigEntry>,
    config2: Seq<RunnerConfigEntry>,
)
    requires
        spec_env_match(env, triple) is Some,
    ensures
        spec_resolution(triple, env, config1) == spec_resolution(triple, env, config2),
{
}

/// Resolves the target runner for `triple` from snapshots of the environment
/// and the configuration.  The environment is consulted first; a selected
/// value that holds no word at all is the `BinaryNotSpecified` error, naming
/// the key and the value; no match anywhere is direct invocation (`None`).
pub fn resolve_target_runner(
    triple: &str,
    env: &Vec<EnvVar>,
    config: &Vec<RunnerConfigEntry>,
) -> (r: Result<Option<PlatformRunner>, TargetRunnerError>)
    ensures
        ({
            match spec_resolution(triple@, env@, config@) {
                None => r matches Ok(o) && o is None,
                Some(kv) => {
                    let words = split_ws(kv.1);
                    if words.len() == 0 {
                        r matches Err(TargetRunnerError::BinaryNotSpecified { key, value })
                            && key@ == kv.0 && value@ == kv.1
                    } else {
                        r matches Ok(o) && o matches Some(p) && p.binary@ == words[0] && views(
                            p.args@,
                        ) == words.drop_first()
                    }
                },
            }
        }),
{
    let mut i: usize = 0;
    while i < env.len()
        invariant
            i <= env@.len(),
            forall|j: int|
                0 <= j < i ==> !is_runner_env_key((#[trigger] env@[j]).key@, triple@),
        decreases env@.len() - i,
    {
        if matches_runner_env_key(env[i].key.as_str(), triple) {
            proof {
                lemma_env_match_found(env@, triple@, i as int);
            }
            let key = env[i].key.clone();
            let value = env[i].value.clone();
            return build_runner(key, value);
        }
        i += 1;
    }
    proof {
        lemma_env_match_none(env@, triple@);
    }
    let mut c: usize = 0;
    while c < config.len()
        invariant
            c <= config@.len(),
            spec_env_match(env@, triple@) is None,
            forall|j: int| 0 <= j < c ==> (#[trigger] config@[j]).triple@ != triple@,
        decreases config@.len() - c,
    {
        if str_eq(config[c].triple.as_str(), triple) {
            proof {
                lemma_config_match_found(config@, triple@, c as int);
            }
            let mut key = String::from_str("target.");
            key.append(triple);
            key.append(".runner");
            let value = config[c].runner.clone();
            return build_runner(key, value);
        }
        c += 1;
    }
    proof {
        lemma_config_match_none(config@, triple@);
    }
    Ok(None)
}

/// Turns a selected key and value into a runner, or the error when the value
/// holds no word.
fn build_runner(key: String, value: String) -> (r: Result<
    Option<PlatformRunner>,
    TargetRunnerError,
>)
    ensures
        ({
            let words = split_ws(value@);
            if words.len() == 0 {
                r matches Err(TargetRunnerError::BinaryNotSpecified { key: k, value: v }) && k@
                    == key@ && v@ == value@
            } else {
                r matches Ok(o) && o matches Some(p) && p.binary@ == words[0] && views(p.args@)
                    == words.drop_first()
            }
        }),
{
    let mut words = split_whitespace_words(value.as_str());
    if words.len() == 0 {
        return Err(TargetRunnerError::BinaryNotSpecified { key, value });
    }
    let binary = words.remove(0);
    proof {
        assert(views(words@) =~= split_ws(value@).drop_first());
    }
    Ok(Some(PlatformRunner { binary, args: words }))
}

} // verus!
