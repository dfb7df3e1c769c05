//! The unauthorized-access verifier's response classification.
//!
//! The probe itself (a blocking HTTP GET) is the application's job; the
//! library classifies each `(status code, body)` pair against the
//! configured policy. Mind the policy language's quirks, which this
//! auditor keeps deliberately: the `Contains` body rule tests whether the
//! *rule value* contains the response body, and the `Regex` and
//! `NotContains` body rules flag unconditionally; only an unrecognised
//! rule name never flags.
use vstd::prelude::*;
use vstd::string::StringExecFns;
use crate::model::{Match, UnauthorizedInterface, UnauthorizedRule};
use crate::strutil::{spec_contains, str_contains, to_chars, chars_to_string};

verus! {

/// Ghost image of a flagged probe result.
pub ghost struct ProbeView {
    pub code: u16,
    pub body: Seq<char>,
    pub url: Seq<char>,
}

impl View for UnauthorizedInterface {
    type V = ProbeView;

    open spec fn view(&self) -> ProbeView {
        ProbeView { code: self.code, body: self.body@, url: self.url@ }
    }
}

/// The views of a probe-result sequence, element-wise.
pub open spec fn probes_view(v: Seq<UnauthorizedInterface>) -> Seq<ProbeView> {
    Seq::new(v.len(), |i: int| v[i]@)
}

/// The probe's status code stands in the configured allow-list.
pub open spec fn spec_code_allowed(codes: Seq<u16>, code: u16) -> bool {
    exists|i: int| 0 <= i < codes.len() && codes[i] == code
}

/// Whether one body rule flags the response (see the module comment for
/// the deliberate quirks of the three rule kinds).
pub open spec fn spec_body_rule_flags(m: Match, body: Seq<char>) -> bool {
    ||| (m.match_rule@ == "Contains"@ && spec_contains(m.value@, body))
    ||| m.match_rule@ == "Regex"@
    ||| m.match_rule@ == "NotContains"@
}

/// One probe entry per flagging body rule, from rule index `i` on.
pub open spec fn spec_body_hits(
    ms: Seq<Match>,
    code: u16,
    body: Seq<char>,
    url: Seq<char>,
    i: int,
) -> Seq<ProbeView>
    decreases ms.len() - i,
{
    if i < 0 || i >= ms.len() {
        seq![]
    } else {
        let rest = spec_body_hits(ms, code, body, url, i + 1);
        if spec_body_rule_flags(ms[i], body) {
            seq![ProbeView { code, body, url }] + rest
        } else {
            rest
        }
    }
}

/// The classification of one probed endpoint: an allow-listed status code
/// flags exactly once and short-circuits the body rules; otherwise every
/// flagging body rule contributes one entry.
pub open spec fn spec_classify(
    rule: UnauthorizedRule,
    code: u16,
    body: Seq<char>,
    url: Seq<char>,
) -> Seq<ProbeView> {
    if spec_code_allowed(rule.status_code@, code) {
        seq![ProbeView { code, body, url }]
    } else {
        spec_body_hits(rule.response_body@, code, body, url, 0)
    }
}

/// An endpoint whose probe status code is in the allow-list is flagged
/// exactly once, whatever the body and the body rules say.
pub proof fn lemma_status_short_circuit(
    rule: UnauthorizedRule,
    code: u16,
    body: Seq<char>,
    url: Seq<char>,
)
    requires
        spec_code_allowed(rule.status_code@, code),
    ensures
        spec_classify(rule, code, body, url) == seq![ProbeView { code, body, url }],
{
}

/// Membership test against the status-code allow-list.
pub fn code_allowed(codes: &Vec<u16>, code: u16) -> (r: bool)
    ensures
        r == spec_code_allowed(codes@, code),
{
    let mut i: usize = 0;
    while i < codes.len()
        invariant
            i <= codes@.len(),
            forall|j: int| 0 <= j < i ==> codes@[j] != code,
        decreases codes@.len() - i,
    {
        if codes[i] == code {
            return true;
        }
        i = i + 1;
    }
    false
}

/// Classify one probe response against the policy.
pub fn classify_response(rule: &UnauthorizedRule, code: u16, body: &str, url: &str) -> (r: Vec<
    UnauthorizedInterface,
>)
    ensures
        probes_view(r@) == spec_classify(*rule, code, body@, url@),
{
    let mut out: Vec<UnauthorizedInterface> = Vec::new();
    if code_allowed(&rule.status_code, code) {
        let entry = UnauthorizedInterface {
            code,
            body: str_to_owned(body),
            url: str_to_owned(url),
        };
        let ghost old_out = out@;
        out.push(entry);
        proof {
            lemma_probes_view_push(old_out, entry);
            assert(probes_view(out@) =~= spec_classify(*rule, code, body@, url@));
        }
        return out;
    }
    proof {
        reveal_strlit("Contains");
        reveal_strlit("Regex");
        reveal_strlit("NotContains");
    }
    let contains_lit = String::from_str("Contains");
    let regex_lit = String::from_str("Regex");
    let not_contains_lit = String::from_str("NotContains");
    let mut i: usize = 0;
    while i < rule.response_body.len()
        invariant
            i <= rule.response_body@.len(),
            !spec_code_allowed(rule.status_code@, code),
            contains_lit@ == "Contains"@,
            regex_lit@ == "Regex"@,
            not_contains_lit@ == "NotContains"@,
            spec_classify(*rule, code, body@, url@) == probes_view(out@) + spec_body_hits(
                rule.response_body@,
                code,
                body@,
                url@,
                i as int,
            ),
        decreases rule.response_body@.len() - i,
    {
        let m = &rule.response_body[i];
        let flagged = if m.match_rule.eq(&contains_lit) {
            str_contains(m.value.as_str(), body)
        } else if m.match_rule.eq(&regex_lit) {
            true
        } else if m.match_rule.eq(&not_contains_lit) {
            true
        } else {
            false
        };
        proof {
            reveal_strlit("Contains");
            reveal_strlit("Regex");
            reveal_strlit("NotContains");
            broadcast use vstd::string::group_string_axioms;

            // The three rule names have different lengths, so the branches
            // of the disjunction exclude one another.
            assert("Contains"@.len() == 8);
            assert("Regex"@.len() == 5);
            assert("NotContains"@.len() == 11);
            assert(flagged == spec_body_rule_flags(rule.response_body@[i as int], body@));
        }
        if flagged {
            let entry = UnauthorizedInterface {
                code,
                body: str_to_owned(body),
                url: str_to_owned(url),
            };
            let ghost old_out = out@;
            out.push(entry);
            proof {
                lemma_probes_view_push(old_out, entry);
            }
        }
        i = i + 1;
    }
    proof {
        assert(probes_view(out@) =~= probes_view(out@) + spec_body_hits(
            rule.response_body@,
            code,
            body@,
            url@,
            i as int,
        ));
    }
    out
}

/// The full probe URL is the configured prefix followed by the endpoint.
pub fn build_probe_url(prefix: &str, endpoint: &str) -> (r: String)
    ensures
        r@ == prefix@ + endpoint@,
{
    let mut p = to_chars(prefix);
    let mut e = to_chars(endpoint);
    p.append(&mut e);
    let r = chars_to_string(&p);
    proof {
        assert(r@ =~= prefix@ + endpoint@);
    }
    r
}

/// Owned copy of a string slice.
fn str_to_owned(s: &str) -> (r: String)
    ensures
        r@ == s@,
{
    String::from_str(s)
}

proof fn lemma_probes_view_push(v: Seq<UnauthorizedInterface>, x: UnauthorizedInterface)
    ensures
        probes_view(v.push(x)) == probes_view(v) + seq![x@],
{
    assert(probes_view(v.push(x)) =~= probes_view(v) + seq![x@]);
}

} // verus!
