//! Filtering the environment handed to spawned processes: variables whose
//! names look like credentials are removed.

use vstd::prelude::*;

use crate::strutil::ascii_upper_spec;
use crate::strutil::ascii_upper;
use crate::strutil::chars_contain;
use crate::strutil::contains_seq;
use crate::strutil::str_eq;
use crate::strutil::str_to_chars;

verus! {

/// The ASCII upper-casing of a name.
pub open spec fn upper_of(name: Seq<char>) -> Seq<char> {
    name.map_values(|c: char| ascii_upper_spec(c))
}

/// Whether the name is on the fixed list of sensitive variables.
pub open spec fn explicitly_sensitive(name: Seq<char>) -> bool {
    ||| name == "SSH_AUTH_SOCK"@
    ||| name == "SSH_AGENT_PID"@
    ||| name == "GPG_AGENT_INFO"@
    ||| name == "AWS_SECRET_ACCESS_KEY"@
    ||| name == "AWS_SESSION_TOKEN"@
    ||| name == "GITHUB_TOKEN"@
    ||| name == "ANTHROPIC_API_KEY"@
    ||| name == "OPENAI_API_KEY"@
    ||| name == "CLAUDE_API_KEY"@
    ||| name == "HF_TOKEN"@
    ||| name == "HUGGINGFACE_TOKEN"@
}

/// Whether an environment variable name is sensitive: on the fixed list, or
/// carrying one of the credential words in its upper-cased form.
pub open spec fn is_sensitive_spec(name: Seq<char>) -> bool {
    ||| explicitly_sensitive(name)
    ||| contains_seq(upper_of(name), "SECRET"@)
    ||| contains_seq(upper_of(name), "PASSWORD"@)
    ||| contains_seq(upper_of(name), "CREDENTIAL"@)
    ||| contains_seq(upper_of(name), "PRIVATE_KEY"@)
    ||| (contains_seq(upper_of(name), "API"@) && contains_seq(upper_of(name), "KEY"@))
    ||| (contains_seq(upper_of(name), "AUTH"@) && contains_seq(upper_of(name), "TOKEN"@))
}

/// Whether an environment variable name is sensitive and should be kept
/// from spawned processes.
pub fn is_sensitive_var(name: &str) -> (r: bool)
    ensures
        r == is_sensitive_spec(name@),
{
    if str_eq(name, "SSH_AUTH_SOCK") || str_eq(name, "SSH_AGENT_PID") || str_eq(
        name,
        "GPG_AGENT_INFO",
    ) || str_eq(name, "AWS_SECRET_ACCESS_KEY") || str_eq(name, "AWS_SESSION_TOKEN") || str_eq(
        name,
        "GITHUB_TOKEN",
    ) || str_eq(name, "ANTHROPIC_API_KEY") || str_eq(name, "OPENAI_API_KEY") || str_eq(
        name,
        "CLAUDE_API_KEY",
    ) || str_eq(name, "HF_TOKEN") || str_eq(name, "HUGGINGFACE_TOKEN") {
        return true;
    }
    let cs = str_to_chars(name);
    let mut up: Vec<char> = Vec::new();
    let mut i: usize = 0;
    while i < cs.len()
        invariant
            i <= cs.len(),
            cs@ == name@,
            up@ =~= cs@.subrange(0, i as int).map_values(|c: char| ascii_upper_spec(c)),
        decreases cs.len() - i,
    {
        up.push(ascii_upper(cs[i]));
        proof {
            assert(cs@.subrange(0, i + 1).map_values(|c: char| ascii_upper_spec(c)) =~= cs@
                .subrange(0, i as int).map_values(|c: char| ascii_upper_spec(c)).push(
                ascii_upper_spec(cs@[i as int]),
            ));
        }
        i = i + 1;
    }
    proof {
        assert(cs@.subrange(0, cs@.len() as int) =~= cs@);
        assert(up@ == upper_of(name@));
    }
    let secret = str_to_chars("SECRET");
    let password = str_to_chars("PASSWORD");
    let credential = str_to_chars("CREDENTIAL");
    let private_key = str_to_chars("PRIVATE_KEY");
    let api = str_to_chars("API");
    let key = str_to_chars("KEY");
    let auth = str_to_chars("AUTH");
    let token = str_to_chars("TOKEN");
    chars_contain(&up, &secret) || chars_contain(&up, &password) || chars_contain(&up, &credential)
        || chars_contain(&up, &private_key) || (chars_contain(&up, &api) && chars_contain(
        &up,
        &key,
    )) || (chars_contain(&up, &auth) && chars_contain(&up, &token))
}

/// Whether the pair list `pairs` has an entry whose name is `name`.
pub open spec fn has_key(pairs: Seq<(String, String)>, name: Seq<char>) -> bool {
    exists|j: int| 0 <= j < pairs.len() && (#[trigger] pairs[j]).0@ == name
}

/// Whether the pair list holds this exact pair.
pub open spec fn has_pair(pairs: Seq<(String, String)>, name: Seq<char>, value: Seq<char>) -> bool {
    exists|j: int| 0 <= j < pairs.len() && (#[trigger] pairs[j]).0@ == name && pairs[j].1@ == value
}

/// A pair stays present when another pair is appended.
proof fn lemma_has_pair_push(
    pairs: Seq<(String, String)>,
    p: (String, String),
    name: Seq<char>,
    value: Seq<char>,
)
    requires
        has_pair(pairs, name, value),
    ensures
        has_pair(pairs.push(p), name, value),
{
    let w = choose|w: int|
        0 <= w < pairs.len() && (#[trigger] pairs[w]).0@ == name && pairs[w].1@ == value;
    assert(pairs.push(p)[w] == pairs[w]);
}

/// Look for `name` among the pair names.
fn find_key(pairs: &Vec<(String, String)>, name: &str) -> (r: bool)
    ensures
        r == has_key(pairs@, name@),
{
    let mut i: usize = 0;
    while i < pairs.len()
        invariant
            i <= pairs.len(),
            forall|j: int| 0 <= j < i ==> (#[trigger] pairs@[j]).0@ != name@,
        decreases pairs.len() - i,
    {
        if str_eq(pairs[i].0.as_str(), name) {
            return true;
        }
        i = i + 1;
    }
    false
}

/// Build the environment for a spawned process from the inherited
/// variables, the caller's extra variables and the terminal type: sensitive
/// names are dropped, `TERM` is set, and extra variables override both.
/// Every surviving pair comes from the extras, is the `TERM` setting, or is
/// an inherited, non-sensitive pair whose name the extras do not claim; the
/// extras always appear, at the end, in order.
pub fn build_environment(
    inherited: &Vec<(String, String)>,
    extra: &Vec<(String, String)>,
    term: &str,
) -> (r: Vec<(String, String)>)
    ensures
        forall|i: int|
            0 <= i < r@.len() ==> {
                ||| has_pair(extra@, (#[trigger] r@[i]).0@, r@[i].1@)
                ||| (r@[i].0@ == "TERM"@ && r@[i].1@ == term@)
                ||| (has_pair(inherited@, r@[i].0@, r@[i].1@) && !is_sensitive_spec(r@[i].0@)
                    && !has_key(extra@, r@[i].0@))
            },
        r@.len() >= extra@.len(),
        forall|m: int|
            0 <= m < extra@.len() ==> (#[trigger] r@[r@.len() - extra@.len() + m]).0@
                == extra@[m].0@ && r@[r@.len() - extra@.len() + m].1@ == extra@[m].1@,
        forall|j: int|
            0 <= j < inherited@.len() && !is_sensitive_spec((#[trigger] inherited@[j]).0@)
                && !has_key(extra@, inherited@[j].0@) && inherited@[j].0@ != "TERM"@ ==> has_pair(
                r@,
                inherited@[j].0@,
                inherited@[j].1@,
            ),
        has_key(extra@, "TERM"@) || has_pair(r@, "TERM"@, term@),
{
    let mut out: Vec<(String, String)> = Vec::new();
    let mut i: usize = 0;
    while i < inherited.len()
        invariant
            i <= inherited.len(),
            forall|k: int|
                0 <= k < out@.len() ==> has_pair(inherited@, (#[trigger] out@[k]).0@, out@[k].1@)
                    && !is_sensitive_spec(out@[k].0@) && !has_key(extra@, out@[k].0@)
                    && out@[k].0@ != "TERM"@,
            forall|j: int|
                0 <= j < i && !is_sensitive_spec((#[trigger] inherited@[j]).0@) && !has_key(
                    extra@,
                    inherited@[j].0@,
                ) && inherited@[j].0@ != "TERM"@ ==> has_pair(
                    out@,
                    inherited@[j].0@,
                    inherited@[j].1@,
                ),
        decreases inherited.len() - i,
    {
        let name_ok = !is_sensitive_var(inherited[i].0.as_str()) && !str_eq(
            inherited[i].0.as_str(),
            "TERM",
        ) && !find_key(extra, inherited[i].0.as_str());
        if name_ok {
            let pair = (inherited[i].0.clone(), inherited[i].1.clone());
            let ghost prev = out@;
            proof {
                assert(inherited@[i as int].0@ == pair.0@);
                assert(inherited@[i as int].1@ == pair.1@);
            }
            out.push(pair);
            proof {
                assert(out@[out@.len() - 1].0@ == inherited@[i as int].0@);
                assert(has_pair(out@, inherited@[i as int].0@, inherited@[i as int].1@));
                assert forall|j: int|
                    0 <= j < i && !is_sensitive_spec((#[trigger] inherited@[j]).0@) && !has_key(
                        extra@,
                        inherited@[j].0@,
                    ) && inherited@[j].0@ != "TERM"@ implies has_pair(
                    out@,
                    inherited@[j].0@,
                    inherited@[j].1@,
                ) by {
                    lemma_has_pair_push(prev, pair, inherited@[j].0@, inherited@[j].1@);
                }
            }
        }
        i = i + 1;
    }
    if !find_key(extra, "TERM") {
        let ghost prev = out@;
        let pair = ("TERM".to_owned(), term.to_owned());
        out.push(pair);
        proof {
            assert(out@[out@.len() - 1].0@ == "TERM"@ && out@[out@.len() - 1].1@ == term@);
            assert(has_pair(out@, "TERM"@, term@));
            assert forall|j: int|
                0 <= j < inherited@.len() && !is_sensitive_spec((#[trigger] inherited@[j]).0@)
                    && !has_key(extra@, inherited@[j].0@) && inherited@[j].0@ != "TERM"@ implies has_pair(
                out@,
                inherited@[j].0@,
                inherited@[j].1@,
            ) by {
                lemma_has_pair_push(prev, out@[out@.len() - 1], inherited@[j].0@, inherited@[j].1@);
            }
        }
    }
    let ghost base = out@;
    let ghost keep = 0int + out@.len();
    let mut k: usize = 0;
    while k < extra.len()
        invariant
            k <= extra.len(),
            out@.len() == base.len() + k,
            forall|m: int| 0 <= m < base.len() ==> #[trigger] out@[m] == base[m],
            forall|m: int|
                0 <= m < k ==> (#[trigger] out@[base.len() + m]).0@ == extra@[m].0@ && out@[base.len()
                    + m].1@ == extra@[m].1@,
            forall|m: int|
                0 <= m < base.len() ==> {
                    ||| has_pair(extra@, (#[trigger] out@[m]).0@, out@[m].1@)
                    ||| (out@[m].0@ == "TERM"@ && out@[m].1@ == term@)
                    ||| (has_pair(inherited@, out@[m].0@, out@[m].1@) && !is_sensitive_spec(
                        out@[m].0@,
                    ) && !has_key(extra@, out@[m].0@))
                },
            forall|j: int|
                0 <= j < inherited@.len() && !is_sensitive_spec((#[trigger] inherited@[j]).0@)
                    && !has_key(extra@, inherited@[j].0@) && inherited@[j].0@ != "TERM"@
                    ==> has_pair(base, inherited@[j].0@, inherited@[j].1@),
            has_key(extra@, "TERM"@) || has_pair(base, "TERM"@, term@),
        decreases extra.len() - k,
    {
        let pair = (extra[k].0.clone(), extra[k].1.clone());
        proof {
            assert(extra@[k as int].0@ == pair.0@ && extra@[k as int].1@ == pair.1@);
        }
        out.push(pair);
        k = k + 1;
    }
    proof {
        assert forall|i: int|
            0 <= i < out@.len() implies {
            ||| has_pair(extra@, (#[trigger] out@[i]).0@, out@[i].1@)
            ||| (out@[i].0@ == "TERM"@ && out@[i].1@ == term@)
            ||| (has_pair(inherited@, out@[i].0@, out@[i].1@) && !is_sensitive_spec(out@[i].0@)
                && !has_key(extra@, out@[i].0@))
        } by {
            if i >= base.len() {
                let m = i - base.len();
                assert(out@[base.len() + m].0@ == extra@[m].0@ && out@[base.len() + m].1@
                    == extra@[m].1@);
                assert(has_pair(extra@, out@[i].0@, out@[i].1@));
            }
        }
    }
    proof {
        assert forall|j: int|
            0 <= j < inherited@.len() && !is_sensitive_spec((#[trigger] inherited@[j]).0@)
                && !has_key(extra@, inherited@[j].0@) && inherited@[j].0@ != "TERM"@ implies has_pair(
            out@,
            inherited@[j].0@,
            inherited@[j].1@,
        ) by {
            assert(has_pair(base, inherited@[j].0@, inherited@[j].1@));
            let w = choose|w: int|
                0 <= w < base.len() && (#[trigger] base[w]).0@ == inherited@[j].0@ && base[w].1@
                    == inherited@[j].1@;
            assert(out@[w] == base[w]);
        }
        if !has_key(extra@, "TERM"@) {
            let w = choose|w: int|
                0 <= w < base.len() && (#[trigger] base[w]).0@ == "TERM"@ && base[w].1@ == term@;
            assert(out@[w] == base[w]);
        }
    }
    out
}

} // verus!
