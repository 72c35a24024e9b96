//! Claim detection and credibility scoring: a content-quality analyzer
//! that reads the script's text layers and never affects rendering.
//!
//! A text layer counts as a claim when it matches one of three fixed
//! regular-expression patterns (statistics, superlatives, absolute
//! terms). A claim counts as verified when the script carries any
//! citation; the score falls with every unverified claim.

use vstd::prelude::*;

use crate::script::{Layer, Scene, VideoScript};

verus! {

/// Whether `pattern` is a valid regular expression, as
/// `regex::Regex::new` decides it: a function of the pattern alone.
pub uninterp spec fn regex_compiles(pattern: Seq<char>) -> bool;

/// Whether `text` matches the regular expression `pattern`: a
/// function of the two strings alone.
pub uninterp spec fn regex_match(pattern: Seq<char>, text: Seq<char>) -> bool;

/// Relies on `regex::Regex::new` and `regex::Regex::is_match`:
/// compiles `pattern` and asks whether `text` matches it; `None`
/// exactly when the pattern does not compile.
#[verifier::external_body]
fn regex_is_match(pattern: &str, text: &str) -> (r: Option<bool>)
    ensures
        r is Some <==> regex_compiles(pattern@),
        r matches Some(b) ==> b == regex_match(pattern@, text@),
{
    match regex::Regex::new(pattern) {
        Ok(re) => Some(re.is_match(text)),
        Err(_) => None,
    }
}

/// A pattern detects a text only if it compiles and matches: an
/// uncompilable pattern detects nothing.
pub open spec fn pat_match(pattern: Seq<char>, text: Seq<char>) -> bool {
    regex_compiles(pattern) && regex_match(pattern, text)
}

/// Statistics: percentages, "N out of M", "Nx faster".
pub open spec fn stat_pattern() -> Seq<char> {
    r"\d+%|\d+ out of \d+|\d+x faster"@
}

/// Superlative language.
pub open spec fn superlative_pattern() -> Seq<char> {
    r"(?i)\b(best|fastest|first|only|proven|guaranteed)\b"@
}

/// Absolute terms.
pub open spec fn absolute_pattern() -> Seq<char> {
    r"(?i)\b(always|never|everyone|nobody)\b"@
}

/// Why a text is a claim, if it is one: the first pattern that
/// detects it, in the fixed order statistics, superlative, absolute.
pub open spec fn claim_reason(text: Seq<char>) -> Option<Seq<char>> {
    if pat_match(stat_pattern(), text) {
        Some("Contains statistics"@)
    } else if pat_match(superlative_pattern(), text) {
        Some("Uses superlative language"@)
    } else if pat_match(absolute_pattern(), text) {
        Some("Uses absolute terms"@)
    } else {
        None
    }
}

/// One detected claim.
#[derive(Debug, Clone)]
pub struct Claim {
    pub text: String,
    pub scene_index: usize,
    pub verified: bool,
    pub reason: String,
}

/// The mathematical shadow of one claim.
pub ghost struct ClaimModel {
    pub text: Seq<char>,
    pub scene_index: int,
    pub verified: bool,
    pub reason: Seq<char>,
}

pub open spec fn claim_model(c: Claim) -> ClaimModel {
    ClaimModel {
        text: c.text@,
        scene_index: c.scene_index as int,
        verified: c.verified,
        reason: c.reason@,
    }
}

/// The claims of one scene's layer stack, in layer order: every text
/// layer some pattern detects.
pub open spec fn scene_claims(layers: Seq<Layer>, scene_index: int, verified: bool) -> Seq<
    ClaimModel,
>
    decreases layers.len(),
{
    if layers.len() == 0 {
        Seq::empty()
    } else {
        let rest = scene_claims(layers.drop_last(), scene_index, verified);
        match layers.last() {
            Layer::Text { content, .. } => match claim_reason(content@) {
                Some(reason) => rest.push(
                    ClaimModel { text: content@, scene_index, verified, reason },
                ),
                None => rest,
            },
            _ => rest,
        }
    }
}

/// The claims of the first `k` scenes, scene by scene.
pub open spec fn claims_upto(scenes: Seq<Scene>, k: int, verified: bool) -> Seq<ClaimModel>
    decreases k,
{
    if k <= 0 {
        Seq::empty()
    } else {
        claims_upto(scenes, k - 1, verified) + scene_claims(
            scenes[k - 1].layers@,
            k - 1,
            verified,
        )
    }
}

/// All claims of a script. A claim is verified exactly when the
/// script carries at least one citation.
pub open spec fn script_claims(script: VideoScript) -> Seq<ClaimModel> {
    claims_upto(
        script.scenes@,
        script.scenes@.len() as int,
        script.metadata.citations@.len() > 0,
    )
}

/// The credibility score: 100 with no claims; otherwise the verified
/// share of 100, minus ten per unverified claim, floored at zero.
pub open spec fn score_of(total: int, verified_count: int) -> int {
    if total == 0 {
        100
    } else {
        let base = verified_count * 100 / total;
        let penalty = (total - verified_count) * 10;
        if base - penalty >= 0 {
            base - penalty
        } else {
            0
        }
    }
}

/// The analyzer's findings: the score, every detected claim, and the
/// script's citations.
#[derive(Debug, Clone)]
pub struct CredibilityReport {
    pub score: u32,
    pub claims: Vec<Claim>,
    pub citations: Vec<String>,
}

/// The claim detector and scorer. Stateless: the report is a function
/// of the script alone.
pub struct CredibilityAnalyzer;

fn stat_pattern_str() -> (r: &'static str)
    ensures
        r@ == stat_pattern(),
{
    r"\d+%|\d+ out of \d+|\d+x faster"
}

fn superlative_pattern_str() -> (r: &'static str)
    ensures
        r@ == superlative_pattern(),
{
    r"(?i)\b(best|fastest|first|only|proven|guaranteed)\b"
}

fn absolute_pattern_str() -> (r: &'static str)
    ensures
        r@ == absolute_pattern(),
{
    r"(?i)\b(always|never|everyone|nobody)\b"
}

/// Whether `pattern` detects `text`: compiled and matching.
fn pat_match_exec(pattern: &str, text: &str) -> (r: bool)
    ensures
        r == pat_match(pattern@, text@),
{
    match regex_is_match(pattern, text) {
        Some(b) => b,
        None => false,
    }
}

fn clone_strings(v: &Vec<String>) -> (r: Vec<String>)
    ensures
        r@ == v@,
{
    let mut r: Vec<String> = Vec::new();
    let n = v.len();
    let mut i: usize = 0;
    while i < n
        invariant
            n == v@.len(),
            i <= n,
            r@ == v@.subrange(0, i as int),
        decreases n - i,
    {
        r.push(v[i].clone());
        proof {
            assert(r@ =~= v@.subrange(0, i as int + 1));
        }
        i += 1;
    }
    proof {
        assert(r@ =~= v@);
    }
    r
}

impl CredibilityAnalyzer {
    /// Detects every claim of the script, scene by scene, layer by
    /// layer, in order.
    fn detect_claims(script: &VideoScript) -> (r: Vec<Claim>)
        ensures
            r@.map_values(|c: Claim| claim_model(c)) == script_claims(*script),
    {
        let verified = script.metadata.citations.len() > 0;
        let mut claims: Vec<Claim> = Vec::new();
        let ns = script.scenes.len();
        let mut k: usize = 0;
        proof {
            assert(claims@.map_values(|c: Claim| claim_model(c))
                =~= Seq::<ClaimModel>::empty());
        }
        while k < ns
            invariant
                ns == script.scenes@.len(),
                k <= ns,
                verified == (script.metadata.citations@.len() > 0),
                claims@.map_values(|c: Claim| claim_model(c)) == claims_upto(
                    script.scenes@,
                    k as int,
                    verified,
                ),
            decreases ns - k,
        {
            let scene = &script.scenes[k];
            let nl = scene.layers.len();
            let mut j: usize = 0;
            proof {
                assert(scene.layers@.take(0) =~= Seq::<Layer>::empty());
            }
            while j < nl
                invariant
                    ns == script.scenes@.len(),
                    k < ns,
                    nl == scene.layers@.len(),
                    j <= nl,
                    scene == &script.scenes@[k as int],
                    verified == (script.metadata.citations@.len() > 0),
                    claims@.map_values(|c: Claim| claim_model(c)) == claims_upto(
                        script.scenes@,
                        k as int,
                        verified,
                    ) + scene_claims(scene.layers@.take(j as int), k as int, verified),
                decreases nl - j,
            {
                let ghost pre = claims@;
                let layer = &scene.layers[j];
                match layer {
                    Layer::Text { content, .. } => {
                        let is_stat = pat_match_exec(stat_pattern_str(), content.as_str());
                        let is_sup = pat_match_exec(
                            superlative_pattern_str(),
                            content.as_str(),
                        );
                        let is_abs = pat_match_exec(absolute_pattern_str(), content.as_str());
                        if is_stat || is_sup || is_abs {
                            let reason: String = if is_stat {
                                "Contains statistics".to_owned()
                            } else if is_sup {
                                "Uses superlative language".to_owned()
                            } else {
                                "Uses absolute terms".to_owned()
                            };
                            claims.push(
                                Claim {
                                    text: content.clone(),
                                    scene_index: k,
                                    verified,
                                    reason,
                                },
                            );
                        }
                    },
                    _ => {},
                }
                proof {
                    assert(scene.layers@.take(j as int + 1).drop_last() =~= scene.layers@.take(
                        j as int,
                    ));
                    assert(scene.layers@.take(j as int + 1).last() == scene.layers@[j as int]);
                    if claims@.len() > pre.len() {
                        assert(claims@ == pre.push(claims@.last()));
                        assert(claims@.map_values(|c: Claim| claim_model(c)) =~= pre.map_values(
                            |c: Claim| claim_model(c),
                        ).push(claim_model(claims@.last())));
                    } else {
                        assert(claims@.map_values(|c: Claim| claim_model(c)) == pre.map_values(
                            |c: Claim| claim_model(c),
                        ));
                    }
                }
                j += 1;
            }
            proof {
                assert(scene.layers@.take(nl as int) =~= scene.layers@);
            }
            k += 1;
        }
        claims
    }

    /// Scores the script: detects every claim, marks each verified
    /// exactly when citations exist, and computes the score by
    /// [`score_of`].
    pub fn analyze(script: &VideoScript) -> (r: CredibilityReport)
        ensures
            r.claims@.map_values(|c: Claim| claim_model(c)) == script_claims(*script),
            r.citations@ == script.metadata.citations@,
            r.score == score_of(
                script_claims(*script).len() as int,
                if script.metadata.citations@.len() > 0 {
                    script_claims(*script).len() as int
                } else {
                    0
                },
            ),
    {
        let claims = Self::detect_claims(script);
        let citations = clone_strings(&script.metadata.citations);
        let total: usize = claims.len();
        let verified_count: usize = if script.metadata.citations.len() > 0 {
            total
        } else {
            0
        };
        let score: u32 = if total == 0 {
            100
        } else {
            let base: u128 = (verified_count as u128) * 100 / (total as u128);
            let penalty: u128 = ((total - verified_count) as u128) * 10;
            proof {
                assert((verified_count as int) * 100 / (total as int) <= 100)
                    by (nonlinear_arith)
                    requires
                        0 < total,
                        0 <= verified_count <= total,
                ;
                assert((verified_count as int) * 100 >= 0) by (nonlinear_arith)
                    requires
                        verified_count >= 0,
                ;
            }
            if base >= penalty {
                (base - penalty) as u32
            } else {
                0
            }
        };
        CredibilityReport { score, claims, citations }
    }
}

} // verus!
