//! The candidate scorer: lexical name matching with fixed-point weights,
//! semantic hits discounted by hierarchy depth, fusion of both streams by
//! entity id, and the final ranking.
//!
//! Scores are fixed-point fractions of [`SCORE_ONE`]; the boundary
//! converts between them and the stores' floating-point scores.

use vstd::prelude::*;
use vstd::multiset::Multiset;

use crate::domain::EntityCandidate;
use crate::text::{contains_str, spec_contains, str_eq};

verus! {

/// The case-folded form of a string, named: what `str::to_lowercase`
/// returns is a function of the characters alone.
pub uninterp spec fn folded(s: Seq<char>) -> Seq<char>;

/// Relies on `str::to_lowercase`: full Unicode case folding, the same on
/// every machine for the same characters.
#[verifier::external_body]
fn lowercase(s: &str) -> (r: String)
    ensures
        r@ == folded(s@),
{
    s.to_lowercase()
}

/// The folded views of a sequence of strings.
pub open spec fn folded_views(s: Seq<String>) -> Seq<Seq<char>> {
    s.map_values(|x: String| folded(x@))
}

/// The fixed-point representation of the score 1.0.
pub const SCORE_ONE: u64 = 10000;

/// The weight of an exact name match.
pub const WEIGHT_EXACT_NAME: u64 = 10000;

/// The weight of a name that contains the token.
pub const WEIGHT_NAME_CONTAINS: u64 = 8500;

/// The weight of an exact alias match.
pub const WEIGHT_EXACT_ALIAS: u64 = 9500;

/// The weight of an alias that contains the token.
pub const WEIGHT_ALIAS_CONTAINS: u64 = 7500;

/// The score one already-folded alias gives a token.
pub open spec fn alias_score(alias: Seq<char>, token: Seq<char>) -> int {
    if alias == token {
        WEIGHT_EXACT_ALIAS as int
    } else if spec_contains(alias, token) {
        WEIGHT_ALIAS_CONTAINS as int
    } else {
        0
    }
}

/// The best alias score of a token.
pub open spec fn best_alias_score(aliases: Seq<Seq<char>>, token: Seq<char>) -> int
    decreases aliases.len(),
{
    if aliases.len() == 0 {
        0
    } else {
        let rest = best_alias_score(aliases.drop_first(), token);
        let head = alias_score(aliases[0], token);
        if head >= rest {
            head
        } else {
            rest
        }
    }
}

/// The score one token earns against an already-folded name and folded
/// aliases: the best of the exact-name, name-contains, exact-alias and
/// alias-contains comparators.
pub open spec fn token_score(token: Seq<char>, name: Seq<char>, aliases: Seq<Seq<char>>) -> int {
    let base = if name == token {
        WEIGHT_EXACT_NAME as int
    } else if spec_contains(name, token) {
        WEIGHT_NAME_CONTAINS as int
    } else {
        0
    };
    let ab = best_alias_score(aliases, token);
    if base >= ab {
        base
    } else {
        ab
    }
}

/// The sum of the token scores of all query tokens.
pub open spec fn total_token_score(
    names: Seq<Seq<char>>,
    name: Seq<char>,
    aliases: Seq<Seq<char>>,
) -> int
    decreases names.len(),
{
    if names.len() == 0 {
        0
    } else {
        token_score(names[0], name, aliases) + total_token_score(
            names.drop_first(),
            name,
            aliases,
        )
    }
}

/// The name score: the token-score sum divided by the token count.
pub open spec fn spec_name_score(
    names: Seq<Seq<char>>,
    name: Seq<char>,
    aliases: Seq<Seq<char>>,
) -> int {
    if names.len() == 0 {
        0
    } else {
        total_token_score(names, name, aliases) / (names.len() as int)
    }
}

/// The tokens that matched at least one comparator, in query order.
pub open spec fn spec_matched_tokens(
    names: Seq<Seq<char>>,
    name: Seq<char>,
    aliases: Seq<Seq<char>>,
) -> Seq<Seq<char>> {
    names.filter(|t: Seq<char>| token_score(t, name, aliases) > 0)
}

proof fn lemma_token_score_bounds(token: Seq<char>, name: Seq<char>, aliases: Seq<Seq<char>>)
    ensures
        0 <= token_score(token, name, aliases) <= SCORE_ONE,
    decreases aliases.len(),
{
    if aliases.len() > 0 {
        lemma_token_score_bounds(token, name, aliases.drop_first());
    }
}

proof fn lemma_total_score_bounds(names: Seq<Seq<char>>, name: Seq<char>, aliases: Seq<Seq<char>>)
    ensures
        0 <= total_token_score(names, name, aliases) <= names.len() * (SCORE_ONE as int),
    decreases names.len(),
{
    if names.len() > 0 {
        lemma_total_score_bounds(names.drop_first(), name, aliases);
        lemma_token_score_bounds(names[0], name, aliases);
        assert((names.len() - 1) * (SCORE_ONE as int) + (SCORE_ONE as int) == names.len() * (
        SCORE_ONE as int)) by (nonlinear_arith);
    }
}

/// Computes the token against the already-folded aliases.
fn alias_best_exec(aliases: &Vec<String>, token: &String) -> (r: u64)
    ensures
        r as int == best_alias_score(crate::inherit::views(aliases@), token@),
{
    let ghost av = crate::inherit::views(aliases@);
    let mut best: u64 = 0;
    let mut j: usize = 0;
    proof {
        assert(av.skip(0int) =~= av);
    }
    while j < aliases.len()
        invariant
            av == crate::inherit::views(aliases@),
            j <= aliases@.len(),
            best_alias_score(av, token@) == ({
                let rest = best_alias_score(av.skip(j as int), token@);
                if best as int >= rest {
                    best as int
                } else {
                    rest
                }
            }),
            best <= SCORE_ONE,
        decreases aliases@.len() - j,
    {
        proof {
            assert(av.skip(j as int)[0] == av[j as int]);
            assert(av.skip(j as int).drop_first() =~= av.skip(j + 1));
        }
        let la = &aliases[j];
        let s: u64 = if str_eq(la.as_str(), token.as_str()) {
            WEIGHT_EXACT_ALIAS
        } else if contains_str(la.as_str(), token.as_str()) {
            WEIGHT_ALIAS_CONTAINS
        } else {
            0
        };
        proof {
            assert(s as int == alias_score(av[j as int], token@));
        }
        if s > best {
            best = s;
        }
        j += 1;
    }
    proof {
        assert(av.skip(av.len() as int) =~= Seq::<Seq<char>>::empty());
    }
    best
}

/// Scores the query tokens against an already-folded entity name and
/// already-folded aliases: each token takes its best comparator weight,
/// the weights are summed and divided by the token count; the tokens that
/// matched are reported in order.
pub fn score_tokens(names: &Vec<String>, folded_name: &String, folded_aliases: &Vec<String>) -> (r:
    (u64, Vec<String>))
    ensures
        r.0 as int == spec_name_score(
            crate::inherit::views(names@),
            folded_name@,
            crate::inherit::views(folded_aliases@),
        ),
        crate::inherit::views(r.1@) == spec_matched_tokens(
            crate::inherit::views(names@),
            folded_name@,
            crate::inherit::views(folded_aliases@),
        ),
        r.0 <= SCORE_ONE,
{
    let ghost nv = crate::inherit::views(names@);
    let ghost av = crate::inherit::views(folded_aliases@);
    let mut total: u128 = 0;
    let mut matched: Vec<String> = Vec::new();
    let ghost pred = |t: Seq<char>| token_score(t, folded_name@, av) > 0;
    let mut i: usize = 0;
    proof {
        reveal(Seq::filter);
        assert(nv.take(0int) =~= Seq::<Seq<char>>::empty());
    }
    while i < names.len()
        invariant
            nv == crate::inherit::views(names@),
            av == crate::inherit::views(folded_aliases@),
            pred == (|t: Seq<char>| token_score(t, folded_name@, av) > 0),
            i <= names@.len(),
            total == total_token_score(nv.take(i as int), folded_name@, av),
            total <= (i as int) * (SCORE_ONE as int),
            crate::inherit::views(matched@) =~= nv.take(i as int).filter(pred),
        decreases names@.len() - i,
    {
        let token = &names[i];
        let base: u64 = if str_eq(folded_name.as_str(), token.as_str()) {
            WEIGHT_EXACT_NAME
        } else if contains_str(folded_name.as_str(), token.as_str()) {
            WEIGHT_NAME_CONTAINS
        } else {
            0
        };
        let ab = alias_best_exec(folded_aliases, token);
        let ts: u64 = if base >= ab {
            base
        } else {
            ab
        };
        proof {
            assert(ts as int == token_score(nv[i as int], folded_name@, av));
            lemma_token_score_bounds(nv[i as int], folded_name@, av);
            assert((i as int) * (SCORE_ONE as int) + (SCORE_ONE as int) == (i + 1) * (
            SCORE_ONE as int)) by (nonlinear_arith);
            assert((i + 1) * (SCORE_ONE as int) <= 0x1_0000_0000_0000_0000int * (
            SCORE_ONE as int)) by (nonlinear_arith)
                requires
                    i + 1 <= 0x1_0000_0000_0000_0000int,
            ;
        }
        let ghost matched_pre = matched@;
        if ts > 0 {
            matched.push(token.clone());
            proof {
                assert(crate::inherit::views(matched@) =~= crate::inherit::views(
                    matched_pre,
                ).push(nv[i as int]));
            }
        }
        total = total + ts as u128;
        proof {
            reveal(Seq::filter);
            assert(nv.take(i + 1).drop_last() =~= nv.take(i as int));
            assert(nv.take(i + 1).last() == nv[i as int]);
            lemma_total_front(nv.take(i + 1), folded_name@, av);
        }
        i += 1;
    }
    proof {
        assert(nv.take(nv.len() as int) =~= nv);
    }
    if names.len() == 0 {
        return (0, matched);
    }
    let score128: u128 = total / (names.len() as u128);
    let score: u64 = score128 as u64;
    proof {
        lemma_total_score_bounds(nv, folded_name@, av);
        let t = total as int;
        let n = names@.len() as int;
        assert(t / n <= SCORE_ONE as int) by (nonlinear_arith)
            requires
                n > 0,
                0 <= t,
                t <= n * (SCORE_ONE as int),
        ;
        assert(total / (names@.len() as u128) <= SCORE_ONE as u128);
    }
    (score, matched)
}

/// Scores an entity's name and aliases against the query tokens: name and
/// aliases are case-folded, each token takes its best comparator weight,
/// the weights are summed and divided by the token count; the tokens that
/// matched are reported in order.
pub fn compute_name_score(names: &Vec<String>, entity_name: &String, aliases: &Vec<String>) -> (r: (
    u64,
    Vec<String>,
))
    ensures
        r.0 as int == spec_name_score(
            crate::inherit::views(names@),
            folded(entity_name@),
            folded_views(aliases@),
        ),
        crate::inherit::views(r.1@) == spec_matched_tokens(
            crate::inherit::views(names@),
            folded(entity_name@),
            folded_views(aliases@),
        ),
        r.0 <= SCORE_ONE,
{
    let folded_name = lowercase(entity_name.as_str());
    let mut folded_aliases: Vec<String> = Vec::new();
    let mut i: usize = 0;
    while i < aliases.len()
        invariant
            i <= aliases@.len(),
            folded_aliases@.len() == i,
            forall|j: int| 0 <= j < i ==> (#[trigger] folded_aliases@[j])@ == folded(aliases@[j]@),
        decreases aliases@.len() - i,
    {
        folded_aliases.push(lowercase(aliases[i].as_str()));
        i += 1;
    }
    proof {
        assert(crate::inherit::views(folded_aliases@) =~= folded_views(aliases@));
    }
    score_tokens(names, &folded_name, &folded_aliases)
}

/// Summing from the front equals peeling the last token off the sum.
proof fn lemma_total_front(names: Seq<Seq<char>>, name: Seq<char>, aliases: Seq<Seq<char>>)
    requires
        names.len() > 0,
    ensures
        total_token_score(names, name, aliases) == total_token_score(
            names.drop_last(),
            name,
            aliases,
        ) + token_score(names.last(), name, aliases),
    decreases names.len(),
{
    if names.len() > 1 {
        lemma_total_front(names.drop_first(), name, aliases);
        assert(names.drop_first().drop_last() =~= names.drop_last().drop_first());
        assert(names.drop_last()[0] == names[0]);
        assert(names.drop_first().last() == names.last());
    } else {
        assert(names.drop_last() =~= Seq::<Seq<char>>::empty());
        assert(names.drop_first() =~= Seq::<Seq<char>>::empty());
        assert(names.last() == names[0]);
    }
}


/// One row of the lexical candidate stream.
pub struct LexicalCandidate {
    pub id: String,
    pub name_score: u64,
    pub matched_tokens: Vec<String>,
}

/// One hit of the semantic stream: a stored block's root entity, its
/// hierarchy level, its text, and the raw similarity as a fixed-point
/// fraction of [`SCORE_ONE`].
pub struct SemanticHit {
    pub root_entity_id: String,
    pub block_level: u64,
    pub text: Option<String>,
    pub score: u64,
}

/// One display row fetched for the merged id set.
pub struct DisplayField {
    pub id: String,
    pub name: String,
    pub type_id: String,
}

/// The weight of a semantic hit: the raw similarity divided by one plus
/// the block level, so a root block outranks a deep summary.
pub open spec fn hit_weight(h: SemanticHit) -> int {
    (h.score as int) / (1 + h.block_level as int)
}

/// The best (largest) weighted semantic score among the hits of an id.
pub open spec fn max_weighted(sem: Seq<SemanticHit>, id: Seq<char>) -> int
    decreases sem.len(),
{
    if sem.len() == 0 {
        0
    } else {
        let rest = max_weighted(sem.drop_first(), id);
        if sem[0].root_entity_id@ == id {
            let w = hit_weight(sem[0]);
            if w >= rest {
                w
            } else {
                rest
            }
        } else {
            rest
        }
    }
}

/// The view of an optional text.
pub open spec fn text_view(t: Option<String>) -> Option<Seq<char>> {
    match t {
        Option::Some(s) => Option::Some(s@),
        Option::None => Option::None,
    }
}

/// The text of the shallowest hit of an id, folding in stream order: a
/// strictly shallower hit replaces the kept one.
pub open spec fn fold_text(
    sem: Seq<SemanticHit>,
    id: Seq<char>,
    cur: Option<(int, Option<Seq<char>>)>,
) -> Option<(int, Option<Seq<char>>)>
    decreases sem.len(),
{
    if sem.len() == 0 {
        cur
    } else {
        let h = sem[0];
        let next = match cur {
            Option::None => if h.root_entity_id@ == id {
                Option::Some((h.block_level as int, text_view(h.text)))
            } else {
                cur
            },
            Option::Some(c) => if h.root_entity_id@ == id && (h.block_level as int) < c.0 {
                Option::Some((h.block_level as int, text_view(h.text)))
            } else {
                cur
            },
        };
        fold_text(sem.drop_first(), id, next)
    }
}

pub open spec fn best_text(sem: Seq<SemanticHit>, id: Seq<char>) -> Option<Seq<char>> {
    match fold_text(sem, id, Option::None) {
        Option::Some(p) => p.1,
        Option::None => Option::None,
    }
}

/// The lexical score and matched tokens kept for an id: the largest
/// score, and the tokens of the earliest entry of maximal token count.
pub open spec fn fold_lexical(
    lex: Seq<LexicalCandidate>,
    id: Seq<char>,
    cur: Option<(int, Seq<Seq<char>>)>,
) -> Option<(int, Seq<Seq<char>>)>
    decreases lex.len(),
{
    if lex.len() == 0 {
        cur
    } else {
        let l = lex[0];
        let next = if l.id@ == id {
            match cur {
                Option::None => Option::Some(
                    (l.name_score as int, crate::inherit::views(l.matched_tokens@)),
                ),
                Option::Some(c) => {
                    let score = if l.name_score as int > c.0 {
                        l.name_score as int
                    } else {
                        c.0
                    };
                    let tokens = if crate::inherit::views(l.matched_tokens@).len() > c.1.len() {
                        crate::inherit::views(l.matched_tokens@)
                    } else {
                        c.1
                    };
                    Option::Some((score, tokens))
                },
            }
        } else {
            cur
        };
        fold_lexical(lex.drop_first(), id, next)
    }
}

/// The display row fetched for an id, if any (first match).
pub open spec fn display_for(display: Seq<DisplayField>, id: Seq<char>) -> Option<
    (Seq<char>, Seq<char>),
>
    decreases display.len(),
{
    if display.len() == 0 {
        Option::None
    } else if display[0].id@ == id {
        Option::Some((display[0].name@, display[0].type_id@))
    } else {
        display_for(display.drop_first(), id)
    }
}

/// The candidate ids, in first-appearance order: lexical entries first,
/// then semantic roots.
pub open spec fn all_candidate_ids(lex: Seq<LexicalCandidate>, sem: Seq<SemanticHit>) -> Seq<
    Seq<char>,
> {
    lex.map_values(|l: LexicalCandidate| l.id@) + sem.map_values(
        |h: SemanticHit| h.root_entity_id@,
    )
}

/// The ids with duplicates dropped, keeping first appearances.
pub open spec fn dedup_ids(ids: Seq<Seq<char>>) -> Seq<Seq<char>>
    decreases ids.len(),
{
    if ids.len() == 0 {
        Seq::empty()
    } else {
        let rest = dedup_ids(ids.drop_last());
        if ids.drop_last().contains(ids.last()) {
            rest
        } else {
            rest.push(ids.last())
        }
    }
}

proof fn lemma_dedup_contains(ids: Seq<Seq<char>>, x: Seq<char>)
    ensures
        dedup_ids(ids).contains(x) == ids.contains(x),
    decreases ids.len(),
{
    if ids.len() > 0 {
        let prev = ids.drop_last();
        let d = dedup_ids(prev);
        lemma_dedup_contains(prev, x);
        if ids.contains(x) {
            let i = choose|i: int| 0 <= i < ids.len() && ids[i] == x;
            if i < ids.len() - 1 {
                assert(prev[i] == x);
                assert(prev.contains(x));
                assert(d.contains(x));
                let j = choose|j: int| 0 <= j < d.len() && d[j] == x;
                if !prev.contains(ids.last()) {
                    assert(d.push(ids.last())[j] == x);
                    assert(dedup_ids(ids).contains(x));
                } else {
                    assert(dedup_ids(ids).contains(x));
                }
            } else {
                assert(ids.last() == x);
                if prev.contains(x) {
                    let j = choose|j: int| 0 <= j < d.len() && d[j] == x;
                    if !prev.contains(ids.last()) {
                        assert(d.push(ids.last())[j] == x);
                    }
                    assert(dedup_ids(ids).contains(x));
                } else {
                    assert(d.push(ids.last())[d.len() as int] == x);
                    assert(dedup_ids(ids).contains(x));
                }
            }
        }
        if dedup_ids(ids).contains(x) {
            if !prev.contains(ids.last()) {
                let j = choose|j: int|
                    0 <= j < d.push(ids.last()).len() && d.push(ids.last())[j] == x;
                if j < d.len() {
                    assert(d[j] == x);
                    assert(d.contains(x));
                    let i = choose|i: int| 0 <= i < prev.len() && prev[i] == x;
                    assert(ids[i] == x);
                    assert(ids.contains(x));
                } else {
                    assert(x == ids.last());
                    assert(ids[ids.len() - 1] == x);
                    assert(ids.contains(x));
                }
            } else {
                assert(d.contains(x));
                let i = choose|i: int| 0 <= i < prev.len() && prev[i] == x;
                assert(ids[i] == x);
                assert(ids.contains(x));
            }
        }
    }
}

proof fn lemma_dedup_no_duplicates(ids: Seq<Seq<char>>)
    ensures
        dedup_ids(ids).no_duplicates(),
    decreases ids.len(),
{
    if ids.len() > 0 {
        lemma_dedup_no_duplicates(ids.drop_last());
        lemma_dedup_contains(ids.drop_last(), ids.last());
    }
}

/// The view a ranking decision sees of one candidate.
pub open spec fn candidate_view(c: EntityCandidate) -> (
    Seq<char>,
    Seq<char>,
    Option<Seq<char>>,
    int,
    Seq<char>,
    Seq<Seq<char>>,
) {
    (
        c.id@,
        c.name@,
        text_view(c.described_by_text),
        c.score as int,
        c.type_id@,
        crate::inherit::views(c.matched_tokens@),
    )
}

/// The fused candidate of one id, before ranking: display fields from the
/// graph, the lexical score and tokens, the weighted semantic score, the
/// shallowest text, and the combined score.  Ids without display fields
/// (or with empty ones) are dropped.
pub open spec fn fused_view_of(
    id: Seq<char>,
    lex: Seq<LexicalCandidate>,
    sem: Seq<SemanticHit>,
    display: Seq<DisplayField>,
) -> Seq<(Seq<char>, Seq<char>, Option<Seq<char>>, int, Seq<char>, Seq<Seq<char>>)> {
    match display_for(display, id) {
        Option::Some(d) => if d.0.len() > 0 && d.1.len() > 0 {
            let ns = match fold_lexical(lex, id, Option::None) {
                Option::Some(c) => c.0,
                Option::None => 0,
            };
            let tokens = match fold_lexical(lex, id, Option::None) {
                Option::Some(c) => c.1,
                Option::None => Seq::empty(),
            };
            let w = max_weighted(sem, id);
            seq![(id, d.0, best_text(sem, id), (55 * ns + 45 * w) / 100, d.1, tokens)]
        } else {
            Seq::empty()
        },
        Option::None => Seq::empty(),
    }
}

/// All fused candidates, in first-appearance id order.
pub open spec fn fused_views(
    lex: Seq<LexicalCandidate>,
    sem: Seq<SemanticHit>,
    display: Seq<DisplayField>,
) -> Seq<(Seq<char>, Seq<char>, Option<Seq<char>>, int, Seq<char>, Seq<Seq<char>>)> {
    dedup_ids(all_candidate_ids(lex, sem)).flat_map(
        |id: Seq<char>| fused_view_of(id, lex, sem, display),
    )
}

/// Non-increasing scores.
pub open spec fn sorted_desc(
    s: Seq<(Seq<char>, Seq<char>, Option<Seq<char>>, int, Seq<char>, Seq<Seq<char>>)>,
) -> bool {
    forall|i: int, j: int| 0 <= i < j < s.len() ==> (#[trigger] s[i]).3 >= (#[trigger] s[j]).3
}


proof fn lemma_max_weighted_nonneg(sem: Seq<SemanticHit>, id: Seq<char>)
    ensures
        max_weighted(sem, id) >= 0,
    decreases sem.len(),
{
    if sem.len() > 0 {
        lemma_max_weighted_nonneg(sem.drop_first(), id);
        let h = sem[0];
        assert(hit_weight(h) >= 0) by (nonlinear_arith);
    }
}

fn max_weighted_exec(sem: &Vec<SemanticHit>, id: &String) -> (r: u64)
    ensures
        r as int == max_weighted(sem@, id@),
{
    let mut best: u64 = 0;
    let mut j: usize = 0;
    proof {
        assert(sem@.skip(0int) =~= sem@);
        lemma_max_weighted_nonneg(sem@, id@);
    }
    while j < sem.len()
        invariant
            j <= sem@.len(),
            max_weighted(sem@, id@) == ({
                let rest = max_weighted(sem@.skip(j as int), id@);
                if best as int >= rest {
                    best as int
                } else {
                    rest
                }
            }),
        decreases sem@.len() - j,
    {
        proof {
            assert(sem@.skip(j as int)[0] == sem@[j as int]);
            assert(sem@.skip(j as int).drop_first() =~= sem@.skip(j + 1));
        }
        let h = &sem[j];
        if str_eq(h.root_entity_id.as_str(), id.as_str()) {
            let denom: u128 = 1u128 + h.block_level as u128;
            let w128: u128 = (h.score as u128) / denom;
            let w: u64 = w128 as u64;
            proof {
                assert(w128 <= h.score as u128) by (nonlinear_arith)
                    requires
                        denom >= 1,
                        w128 == (h.score as u128) / denom,
                ;
                assert(w as int == hit_weight(sem@[j as int]));
            }
            if w > best {
                best = w;
            }
        }
        j += 1;
    }
    proof {
        assert(sem@.skip(sem@.len() as int) =~= Seq::<SemanticHit>::empty());
    }
    best
}

fn best_text_exec(sem: &Vec<SemanticHit>, id: &String) -> (r: Option<String>)
    ensures
        text_view(r) == best_text(sem@, id@),
{
    let mut cur_level: u64 = 0;
    let mut cur_text: Option<String> = None;
    let mut have: bool = false;
    let ghost gcur: Option<(int, Option<Seq<char>>)> = Option::None;
    let mut j: usize = 0;
    proof {
        assert(sem@.skip(0int) =~= sem@);
    }
    let ghost mut gc: Option<(int, Option<Seq<char>>)> = Option::None;
    while j < sem.len()
        invariant
            j <= sem@.len(),
            fold_text(sem@, id@, Option::None) == fold_text(sem@.skip(j as int), id@, gc),
            match gc {
                Option::Some(p) => have && p.0 == cur_level as int && p.1 == text_view(cur_text),
                Option::None => !have && cur_text is None,
            },
        decreases sem@.len() - j,
    {
        proof {
            assert(sem@.skip(j as int)[0] == sem@[j as int]);
            assert(sem@.skip(j as int).drop_first() =~= sem@.skip(j + 1));
        }
        let h = &sem[j];
        if str_eq(h.root_entity_id.as_str(), id.as_str()) && (!have || h.block_level < cur_level) {
            cur_level = h.block_level;
            cur_text = match &h.text {
                Some(t) => Some(t.clone()),
                None => None,
            };
            have = true;
            proof {
                gc = Option::Some((h.block_level as int, text_view(h.text)));
            }
        }
        j += 1;
    }
    proof {
        assert(sem@.skip(sem@.len() as int) =~= Seq::<SemanticHit>::empty());
    }
    cur_text
}

fn fold_lexical_exec(lex: &Vec<LexicalCandidate>, id: &String) -> (r: (u64, Vec<String>))
    ensures
        ({
            let f = fold_lexical(lex@, id@, Option::None);
            match f {
                Option::Some(c) => r.0 as int == c.0 && crate::inherit::views(r.1@) == c.1,
                Option::None => r.0 == 0 && r.1@.len() == 0,
            }
        }),
{
    let mut score: u64 = 0;
    let mut tokens: Vec<String> = Vec::new();
    let mut have: bool = false;
    let ghost mut gc: Option<(int, Seq<Seq<char>>)> = Option::None;
    let mut j: usize = 0;
    proof {
        assert(lex@.skip(0int) =~= lex@);
    }
    while j < lex.len()
        invariant
            j <= lex@.len(),
            fold_lexical(lex@, id@, Option::None) == fold_lexical(lex@.skip(j as int), id@, gc),
            match gc {
                Option::Some(c) => have && c.0 == score as int && c.1 == crate::inherit::views(
                    tokens@,
                ),
                Option::None => !have && score == 0 && tokens@.len() == 0,
            },
        decreases lex@.len() - j,
    {
        proof {
            assert(lex@.skip(j as int)[0] == lex@[j as int]);
            assert(lex@.skip(j as int).drop_first() =~= lex@.skip(j + 1));
        }
        let l = &lex[j];
        if str_eq(l.id.as_str(), id.as_str()) {
            if !have {
                score = l.name_score;
                tokens = clone_string_vec(&l.matched_tokens);
                have = true;
                proof {
                    gc = Option::Some(
                        (
                            l.name_score as int,
                            crate::inherit::views(lex@[j as int].matched_tokens@),
                        ),
                    );
                }
            } else {
                if l.name_score > score {
                    score = l.name_score;
                }
                if l.matched_tokens.len() > tokens.len() {
                    tokens = clone_string_vec(&l.matched_tokens);
                }
                proof {
                    gc = Option::Some((score as int, crate::inherit::views(tokens@)));
                }
            }
        }
        j += 1;
    }
    proof {
        assert(lex@.skip(lex@.len() as int) =~= Seq::<LexicalCandidate>::empty());
    }
    (score, tokens)
}

fn clone_string_vec(ss: &Vec<String>) -> (r: Vec<String>)
    ensures
        r@ == ss@,
{
    let mut out: Vec<String> = Vec::new();
    let mut i: usize = 0;
    while i < ss.len()
        invariant
            i <= ss@.len(),
            out@ =~= ss@.take(i as int),
        decreases ss@.len() - i,
    {
        out.push(ss[i].clone());
        proof {
            assert(out@ =~= ss@.take(i + 1));
        }
        i += 1;
    }
    proof {
        assert(ss@.take(ss@.len() as int) =~= ss@);
        assert(out@ =~= ss@);
    }
    out
}

fn display_for_exec(display: &Vec<DisplayField>, id: &String) -> (r: Option<(String, String)>)
    ensures
        match r {
            Option::Some(p) => display_for(display@, id@) == Option::Some((p.0@, p.1@)),
            Option::None => display_for(display@, id@) is None,
        },
{
    let mut j: usize = 0;
    proof {
        assert(display@.skip(0int) =~= display@);
    }
    while j < display.len()
        invariant
            j <= display@.len(),
            display_for(display@, id@) == display_for(display@.skip(j as int), id@),
        decreases display@.len() - j,
    {
        proof {
            assert(display@.skip(j as int)[0] == display@[j as int]);
            assert(display@.skip(j as int).drop_first() =~= display@.skip(j + 1));
        }
        if str_eq(display[j].id.as_str(), id.as_str()) {
            return Some((display[j].name.clone(), display[j].type_id.clone()));
        }
        j += 1;
    }
    proof {
        assert(display@.skip(display@.len() as int) =~= Seq::<DisplayField>::empty());
    }
    None
}

/// The distinct candidate ids in first-appearance order.
fn dedup_ids_exec(lex: &Vec<LexicalCandidate>, sem: &Vec<SemanticHit>) -> (r: Vec<String>)
    ensures
        crate::inherit::views(r@) == dedup_ids(all_candidate_ids(lex@, sem@)),
{
    let ghost full = all_candidate_ids(lex@, sem@);
    let mut out: Vec<String> = Vec::new();
    let mut i: usize = 0;
    while i < lex.len()
        invariant
            full == all_candidate_ids(lex@, sem@),
            i <= lex@.len(),
            crate::inherit::views(out@) =~= dedup_ids(full.take(i as int)),
        decreases lex@.len() - i,
    {
        proof {
            assert(full.take(i + 1).drop_last() =~= full.take(i as int));
            assert(full.take(i + 1).last() == full[i as int]);
            assert(full[i as int] == lex@[i as int].id@);
        }
        let present = crate::inherit::vec_contains_str(&out, &lex[i].id);
        proof {
            lemma_dedup_contains(full.take(i as int), lex@[i as int].id@);
            lemma_contains_views(out@, lex@[i as int].id@);
        }
        if !present {
            let ghost pre = out@;
            out.push(lex[i].id.clone());
            proof {
                assert(crate::inherit::views(out@) =~= crate::inherit::views(pre).push(
                    lex@[i as int].id@,
                ));
            }
        }
        i += 1;
    }
    let mut k: usize = 0;
    while k < sem.len()
        invariant
            full == all_candidate_ids(lex@, sem@),
            k <= sem@.len(),
            crate::inherit::views(out@) =~= dedup_ids(full.take(lex@.len() + k)),
        decreases sem@.len() - k,
    {
        proof {
            assert(full.take(lex@.len() + k + 1).drop_last() =~= full.take(lex@.len() + k));
            assert(full.take(lex@.len() + k + 1).last() == full[lex@.len() + k]);
            assert(full[lex@.len() + k] == sem@[k as int].root_entity_id@);
        }
        let present = crate::inherit::vec_contains_str(&out, &sem[k].root_entity_id);
        proof {
            lemma_dedup_contains(full.take(lex@.len() + k), sem@[k as int].root_entity_id@);
            lemma_contains_views(out@, sem@[k as int].root_entity_id@);
        }
        if !present {
            let ghost pre = out@;
            out.push(sem[k].root_entity_id.clone());
            proof {
                assert(crate::inherit::views(out@) =~= crate::inherit::views(pre).push(
                    sem@[k as int].root_entity_id@,
                ));
            }
        }
        k += 1;
    }
    proof {
        assert(full.take(full.len() as int) =~= full);
        assert(lex@.len() + sem@.len() == full.len());
    }
    out
}

/// Membership among views matches pointwise membership.
proof fn lemma_contains_views(s: Seq<String>, v: Seq<char>)
    ensures
        crate::inherit::views(s).contains(v) == crate::inherit::seq_contains_view(s, v),
{
    if crate::inherit::views(s).contains(v) {
        let i = choose|i: int|
            0 <= i < crate::inherit::views(s).len() && crate::inherit::views(s)[i] == v;
        assert((s[i]@) == v);
    }
    if crate::inherit::seq_contains_view(s, v) {
        let i = choose|i: int| 0 <= i < s.len() && (#[trigger] s[i]@) == v;
        assert(crate::inherit::views(s)[i] == v);
    }
}

/// Sorts candidates by score, largest first, preserving the collection.
fn sort_candidates_desc(cands: Vec<EntityCandidate>) -> (r: Vec<EntityCandidate>)
    ensures
        r@.map_values(|c: EntityCandidate| candidate_view(c)).to_multiset() == cands@.map_values(
            |c: EntityCandidate| candidate_view(c),
        ).to_multiset(),
        sorted_desc(r@.map_values(|c: EntityCandidate| candidate_view(c))),
{
    broadcast use vstd::seq_lib::group_to_multiset_ensures;

    let ghost cv = |c: EntityCandidate| candidate_view(c);
    let ghost orig = cands@.map_values(cv).to_multiset();
    let mut rest = cands;
    let mut out: Vec<EntityCandidate> = Vec::new();
    while rest.len() > 0
        invariant
            cv == (|c: EntityCandidate| candidate_view(c)),
            orig == out@.map_values(cv).to_multiset().add(rest@.map_values(cv).to_multiset()),
            sorted_desc(out@.map_values(cv)),
            out@.len() > 0 ==> forall|i: int|
                0 <= i < rest@.len() ==> (#[trigger] rest@[i]).score <= out@[out@.len()
                    - 1].score,
        decreases rest@.len(),
    {
        let mut imax: usize = 0;
        let mut j: usize = 1;
        while j < rest.len()
            invariant
                imax < j <= rest@.len() || (j <= rest@.len() && imax == 0),
                imax < rest@.len(),
                rest@.len() > 0,
                forall|q: int| 0 <= q < j ==> (#[trigger] rest@[q]).score <= rest@[imax as int].score,
            decreases rest@.len() - j,
        {
            if rest[j].score > rest[imax].score {
                imax = j;
            }
            j += 1;
        }
        let ghost rest_pre = rest@;
        let ghost out_pre = out@;
        let x = rest.remove(imax);
        out.push(x);
        proof {
            let xv = cv(rest_pre[imax as int]);
            rest_pre.map_values(cv).to_multiset_ensures();
            out_pre.map_values(cv).to_multiset_ensures();
            assert(rest_pre.map_values(cv).remove(imax as int) =~= rest@.map_values(cv));
            assert(rest_pre.map_values(cv)[imax as int] == xv);
            assert(rest_pre.map_values(cv).remove(imax as int).to_multiset()
                =~= rest_pre.map_values(cv).to_multiset().remove(xv));
            assert(rest@.map_values(cv).to_multiset() =~= rest_pre.map_values(cv)
                .to_multiset().remove(xv));
            assert(out@.map_values(cv) =~= out_pre.map_values(cv).push(xv));
            assert(out_pre.map_values(cv).push(xv).to_multiset() =~= out_pre.map_values(cv)
                .to_multiset().insert(xv));
            assert(out@.map_values(cv).to_multiset() =~= out_pre.map_values(cv)
                .to_multiset().insert(xv));
            assert(rest_pre.map_values(cv).to_multiset().contains(xv));
            assert(out@.map_values(cv).to_multiset().add(rest@.map_values(cv).to_multiset())
                =~= out_pre.map_values(cv).to_multiset().add(
                rest_pre.map_values(cv).to_multiset(),
            ));
            assert(sorted_desc(out@.map_values(cv))) by {
                assert forall|a: int, b: int|
                    0 <= a < b < out@.map_values(cv).len() implies (#[trigger] out@.map_values(
                    cv,
                )[a]).3 >= (#[trigger] out@.map_values(cv)[b]).3 by {
                    if b < out_pre.len() {
                        assert(out_pre.map_values(cv)[a] == out@.map_values(cv)[a]);
                        assert(out_pre.map_values(cv)[b] == out@.map_values(cv)[b]);
                    } else {
                        if out_pre.len() > 0 {
                            if a < out_pre.len() - 1 {
                                assert(out_pre.map_values(cv)[a].3 >= out_pre.map_values(
                                    cv,
                                )[out_pre.len() - 1].3);
                            }
                            assert(rest_pre[imax as int].score <= out_pre[out_pre.len()
                                - 1].score);
                        }
                    }
                }
            }
            assert forall|i: int| 0 <= i < rest@.len() implies (#[trigger] rest@[i]).score
                <= out@[out@.len() - 1].score by {
                if i < imax {
                    assert(rest@[i] == rest_pre[i]);
                } else {
                    assert(rest@[i] == rest_pre[i + 1]);
                }
            }
        }
    }
    proof {
        assert(rest@.map_values(cv) =~= Seq::<
            (Seq<char>, Seq<char>, Option<Seq<char>>, int, Seq<char>, Seq<Seq<char>>),
        >::empty());
        assert(rest@.map_values(cv).to_multiset() =~= Multiset::empty());
        assert(out@.map_values(cv).to_multiset() =~= orig);
    }
    out
}

/// Fuses the lexical and semantic candidate streams: the streams are
/// merged by entity id, each id takes its display fields, its best
/// lexical score and tokens, its best depth-weighted semantic score and
/// shallowest text, and the combined score
/// `(55 * name + 45 * semantic) / 100`; ids without display fields are
/// dropped, the rest are ranked by score and cut to the limit.
pub fn fuse_candidates(
    lexical: &Vec<LexicalCandidate>,
    semantic: &Vec<SemanticHit>,
    display: &Vec<DisplayField>,
    limit: usize,
) -> (r: Vec<EntityCandidate>)
    ensures
        exists|full: Seq<(Seq<char>, Seq<char>, Option<Seq<char>>, int, Seq<char>, Seq<Seq<char>>)>|
            {
                &&& #[trigger] full.to_multiset() == fused_views(
                    lexical@,
                    semantic@,
                    display@,
                ).to_multiset()
                &&& sorted_desc(full)
                &&& r@.map_values(|c: EntityCandidate| candidate_view(c)) == full.take(
                    if limit < full.len() {
                        limit as int
                    } else {
                        full.len() as int
                    },
                )
            },
{
    let ghost g = |id: Seq<char>| fused_view_of(id, lexical@, semantic@, display@);
    let ids = dedup_ids_exec(lexical, semantic);
    let mut cands: Vec<EntityCandidate> = Vec::new();
    let mut i: usize = 0;
    let ghost idsv = crate::inherit::views(ids@);
    proof {
        assert(idsv.take(0int).flat_map(g) =~= Seq::<
            (Seq<char>, Seq<char>, Option<Seq<char>>, int, Seq<char>, Seq<Seq<char>>),
        >::empty());
    }
    while i < ids.len()
        invariant
            g == (|id: Seq<char>| fused_view_of(id, lexical@, semantic@, display@)),
            idsv == crate::inherit::views(ids@),
            i <= ids@.len(),
            cands@.map_values(|c: EntityCandidate| candidate_view(c)) =~= idsv.take(
                i as int,
            ).flat_map(g),
        decreases ids@.len() - i,
    {
        let id = &ids[i];
        let ghost pre = cands@;
        if let Some(d) = display_for_exec(display, id) {
            if d.0.as_str().unicode_len() > 0 && d.1.as_str().unicode_len() > 0 {
                let (ns, tokens) = fold_lexical_exec(lexical, id);
                let w = max_weighted_exec(semantic, id);
                let text = best_text_exec(semantic, id);
                let score128: u128 = (55u128 * ns as u128 + 45u128 * w as u128) / 100u128;
                let score: u64 = score128 as u64;
                proof {
                    let a = ns as int;
                    let b = w as int;
                    assert((55 * a + 45 * b) / 100 <= a + b) by (nonlinear_arith)
                        requires
                            0 <= a,
                            0 <= b,
                    ;
                }
                cands.push(
                    EntityCandidate {
                        id: id.clone(),
                        name: d.0,
                        described_by_text: text,
                        score,
                        type_id: d.1,
                        matched_tokens: tokens,
                    },
                );
                proof {
                    assert(cands@.map_values(|c: EntityCandidate| candidate_view(c)) =~= pre
                        .map_values(|c: EntityCandidate| candidate_view(c)).push(
                        candidate_view(cands@.last()),
                    ));
                    assert(candidate_view(cands@.last()) == g(idsv[i as int])[0]);
                    assert(g(idsv[i as int]) =~= seq![candidate_view(cands@.last())]);
                }
            }
        }
        proof {
            idsv.lemma_flat_map_take_append(g, i as int);
        }
        i += 1;
    }
    proof {
        assert(idsv.take(idsv.len() as int) =~= idsv);
    }
    let sorted = sort_candidates_desc(cands);
    let ghost fullv = sorted@.map_values(|c: EntityCandidate| candidate_view(c));
    let mut out = sorted;
    out.truncate(limit);
    proof {
        assert(out@.map_values(|c: EntityCandidate| candidate_view(c)) =~= fullv.take(
            if limit < fullv.len() {
                limit as int
            } else {
                fullv.len() as int
            },
        ));
    }
    out
}

} // verus!
