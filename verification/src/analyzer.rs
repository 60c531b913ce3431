//! The analysis run: the records of each parsed file, calls resolved against
//! the functions found, and documentation taken from rustdoc's pages.
use vstd::prelude::*;
use crate::text::{
    chars_of, concat, opt_view, spec_contains, spec_ends_with, str_contains, str_ends_with, string_views,
    lemma_string_views_push, to_string,
};
use crate::string_map::StringMap;
use crate::output::{MethodOutput, MethodRecord, StructOutput};
use crate::function_analyzer::{copy_method, dedup, FunctionAnalyzer};
use crate::type_analyzer::TypeAnalyzer;
use crate::cargo_integration::{CargoAnalyzer, CargoMetadata, ProjectMetadata, project_result_ok};
use crate::cargo_doc_integration::{
    CargoDocIntegrator, CargoDocInfo, FunctionDocInfo, TypeDocInfo, SourceItemKind, spec_item_source_location,
};
use crate::doc_analyzer::{DocInfo, DocLocation, DocMap, DocType};
use crate::error::AnalyzerError;
use crate::cargo_integration::is_invalid_project;
use crate::cross_crate_analyzer::{
    CrossCrateAnalyzer, spec_cross_callees, spec_cross_calls, spec_updated_method, CrossCrateCallType, setup_crate_of,
    calls_by_caller_view, crate_source_known, calls_view,
};
use crate::doc_analyzer::DocAnalyzer;
use crate::syntax::SourceFile;
use crate::syntax_tree::{file_of, source_file_of};
use crate::parser::{parse_source, spec_parse_source};
use crate::utils::{is_test_file, spec_is_test_file};
use crate::function_analyzer::{byte_len, newline_count, spec_file_records, spec_relative_path, records_of, opt_string};
use crate::type_analyzer::{spec_type_file_records, struct_records_of};
use crate::output::StructRecord;
use crate::utils::spec_module_path;

verus! {

// ---------------------------------------------------------------------------
// Edit distance
// ---------------------------------------------------------------------------

pub open spec fn min3(a: nat, b: nat, c: nat) -> nat {
    if a <= b && a <= c {
        a
    } else if b <= c {
        b
    } else {
        c
    }
}

/// The Levenshtein distance between two texts: the fewest insertions,
/// deletions and substitutions of characters that turn one into the other.
pub open spec fn edit_distance(a: Seq<char>, b: Seq<char>) -> nat
    decreases a.len() + b.len(),
{
    if a.len() == 0 {
        b.len()
    } else if b.len() == 0 {
        a.len()
    } else {
        let cost: nat = if a.last() == b.last() { 0 } else { 1 };
        min3(
            edit_distance(a.drop_last(), b) + 1,
            edit_distance(a, b.drop_last()) + 1,
            edit_distance(a.drop_last(), b.drop_last()) + cost,
        )
    }
}

pub open spec fn max_len(a: Seq<char>, b: Seq<char>) -> nat {
    if a.len() >= b.len() {
        a.len()
    } else {
        b.len()
    }
}

/// The distance is never more than the longer text's length.
pub proof fn lemma_edit_distance_upper(a: Seq<char>, b: Seq<char>)
    ensures
        edit_distance(a, b) <= max_len(a, b),
    decreases a.len() + b.len(),
{
    if a.len() > 0 && b.len() > 0 {
        lemma_edit_distance_upper(a.drop_last(), b.drop_last());
    }
}

/// The distance is at least the difference of the lengths.
pub proof fn lemma_edit_distance_lower(a: Seq<char>, b: Seq<char>)
    ensures
        edit_distance(a, b) >= a.len() - b.len(),
        edit_distance(a, b) >= b.len() - a.len(),
    decreases a.len() + b.len(),
{
    if a.len() > 0 && b.len() > 0 {
        lemma_edit_distance_lower(a.drop_last(), b);
        lemma_edit_distance_lower(a, b.drop_last());
        lemma_edit_distance_lower(a.drop_last(), b.drop_last());
    }
}

/// The distance between two texts does not depend on their order.
pub proof fn lemma_edit_distance_symmetric(a: Seq<char>, b: Seq<char>)
    ensures
        edit_distance(a, b) == edit_distance(b, a),
    decreases a.len() + b.len(),
{
    if a.len() > 0 && b.len() > 0 {
        lemma_edit_distance_symmetric(a.drop_last(), b);
        lemma_edit_distance_symmetric(a, b.drop_last());
        lemma_edit_distance_symmetric(a.drop_last(), b.drop_last());
    }
}

/// The distance is zero exactly between equal texts.
pub proof fn lemma_edit_distance_zero(a: Seq<char>, b: Seq<char>)
    ensures
        edit_distance(a, b) == 0 <==> a == b,
    decreases a.len() + b.len(),
{
    if a.len() > 0 && b.len() > 0 {
        lemma_edit_distance_zero(a.drop_last(), b.drop_last());
        lemma_edit_distance_lower(a.drop_last(), b);
        lemma_edit_distance_lower(a, b.drop_last());
        if edit_distance(a, b) == 0 {
            assert(a.drop_last() == b.drop_last());
            assert(a.last() == b.last());
            assert(a =~= b.drop_last().push(b.last()));
            assert(b =~= b.drop_last().push(b.last()));
        }
        if a == b {
            assert(edit_distance(a.drop_last(), b.drop_last()) == 0);
        }
    } else if a.len() == 0 && b.len() == 0 {
        assert(a =~= b);
    }
}

/// The Levenshtein distance between `target` and `candidate`, computed
/// row by row over a full table as the textbook algorithm does.
pub fn similarity_score(target: &str, candidate: &str) -> (res: usize)
    requires
        target@.len() < usize::MAX,
        candidate@.len() < usize::MAX,
    ensures
        res == edit_distance(target@, candidate@),
{
    let target_chars = chars_of(target);
    let candidate_chars = chars_of(candidate);
    let ghost t = target@;
    let ghost c = candidate@;
    let target_len = target_chars.len();
    let candidate_len = candidate_chars.len();
    if target_len == 0 {
        return candidate_len;
    }
    if candidate_len == 0 {
        return target_len;
    }
    let mut matrix: Vec<Vec<usize>> = Vec::new();
    let mut first: Vec<usize> = Vec::new();
    let mut j: usize = 0;
    while j <= candidate_len
        invariant
            j <= candidate_len + 1,
            candidate_len == c.len(),
            candidate_len < usize::MAX,
            first@.len() == j,
            forall|k: int| 0 <= k < j ==> first@[k] == edit_distance(Seq::<char>::empty(), c.take(k)),
        decreases candidate_len + 1 - j,
    {
        first.push(j);
        j = j + 1;
    }
    matrix.push(first);
    let mut i: usize = 1;
    while i <= target_len
        invariant
            1 <= i <= target_len + 1,
            target_len == t.len(),
            candidate_len == c.len(),
            target_len < usize::MAX,
            candidate_len < usize::MAX,
            target_chars@ == t,
            candidate_chars@ == c,
            matrix@.len() == i,
            forall|r: int, k: int| 0 <= r < i && 0 <= k <= candidate_len ==> (#[trigger] matrix@[r]@[k]) == edit_distance(t.take(r), c.take(k)),
            forall|r: int| 0 <= r < i ==> (#[trigger] matrix@[r]@).len() == candidate_len + 1,
        decreases target_len + 1 - i,
    {
        let prev = &matrix[i - 1];
        let mut row: Vec<usize> = Vec::new();
        proof {
            assert(t.take(i as int).len() == i);
            assert(c.take(0) =~= Seq::<char>::empty());
        }
        row.push(i);
        let mut j: usize = 1;
        while j <= candidate_len
            invariant
                1 <= i <= target_len,
                1 <= j <= candidate_len + 1,
                target_len == t.len(),
                candidate_len == c.len(),
                target_len < usize::MAX,
                candidate_len < usize::MAX,
                target_chars@ == t,
                candidate_chars@ == c,
                prev@.len() == candidate_len + 1,
                forall|k: int| 0 <= k <= candidate_len ==> #[trigger] prev@[k] == edit_distance(t.take(i - 1), c.take(k)),
                row@.len() == j,
                forall|k: int| 0 <= k < j ==> #[trigger] row@[k] == edit_distance(t.take(i as int), c.take(k)),
            decreases candidate_len + 1 - j,
        {
            let ghost a = t.take(i as int);
            let ghost b = c.take(j as int);
            proof {
                assert(a.drop_last() =~= t.take(i - 1));
                assert(b.drop_last() =~= c.take(j - 1));
                assert(a.last() == t[i - 1]);
                assert(b.last() == c[j - 1]);
                lemma_edit_distance_upper(t.take(i - 1), c.take(j as int));
                lemma_edit_distance_upper(a, c.take(j - 1));
                lemma_edit_distance_upper(t.take(i - 1), c.take(j - 1));
            }
            let cost: usize = if target_chars[i - 1] == candidate_chars[j - 1] { 0 } else { 1 };
            let deletion = prev[j] + 1;
            let insertion = row[j - 1] + 1;
            let substitution = prev[j - 1] + cost;
            let best = if deletion <= insertion && deletion <= substitution {
                deletion
            } else if insertion <= substitution {
                insertion
            } else {
                substitution
            };
            row.push(best);
            j = j + 1;
        }
        matrix.push(row);
        proof {
            assert forall|r: int, k: int| 0 <= r < i + 1 && 0 <= k <= candidate_len implies (#[trigger] matrix@[r]@[k]) == edit_distance(t.take(r), c.take(k)) by {
                if r == i {
                    assert(matrix@[r] == row);
                }
            }
        }
        i = i + 1;
    }
    proof {
        assert(t.take(target_len as int) =~= t);
        assert(c.take(candidate_len as int) =~= c);
    }
    matrix[target_len][candidate_len]
}


// ---------------------------------------------------------------------------
// Resolving calls against the functions found
// ---------------------------------------------------------------------------

/// Whether a function's key is a candidate for a call named `callee`.
pub open spec fn spec_callee_matches(key: Seq<char>, callee: Seq<char>) -> bool {
    spec_ends_with(key, "::"@ + callee) || spec_contains(key, callee + "::"@) || spec_contains(key, callee)
}

/// The keys that are candidates for `callee`, in order.
pub open spec fn matching_keys(keys: Seq<Seq<char>>, callee: Seq<char>) -> Seq<Seq<char>>
    decreases keys.len(),
{
    if keys.len() == 0 {
        Seq::empty()
    } else if spec_callee_matches(keys.last(), callee) {
        matching_keys(keys.drop_last(), callee).push(keys.last())
    } else {
        matching_keys(keys.drop_last(), callee)
    }
}

/// How far a candidate is from a call's name: their edit distance, or the
/// largest `usize` for texts too long to measure.
pub open spec fn spec_score(callee: Seq<char>, key: Seq<char>) -> nat {
    if callee.len() < usize::MAX && key.len() < usize::MAX {
        edit_distance(callee, key)
    } else {
        usize::MAX as nat
    }
}

/// The first of the candidates closest to `callee`.
pub open spec fn closest_key(ms: Seq<Seq<char>>, callee: Seq<char>) -> Seq<char>
    decreases ms.len(),
{
    if ms.len() <= 1 {
        ms[0]
    } else {
        let b = closest_key(ms.drop_last(), callee);
        if spec_score(callee, ms.last()) < spec_score(callee, b) {
            ms.last()
        } else {
            b
        }
    }
}

/// What a call named `callee` resolves to among the keys: the key itself
/// where it is one; else the only candidate; else the closest candidate;
/// nothing where no key is a candidate.
pub open spec fn spec_resolve_callee(keys: Seq<Seq<char>>, callee: Seq<char>) -> Option<Seq<char>> {
    if keys.contains(callee) {
        Some(callee)
    } else {
        let ms = matching_keys(keys, callee);
        if ms.len() == 0 {
            None
        } else if ms.len() == 1 {
            Some(ms[0])
        } else {
            Some(closest_key(ms, callee))
        }
    }
}

/// The calls that resolve, each to what it resolves to, in order.
pub open spec fn spec_resolve_calls(keys: Seq<Seq<char>>, callees: Seq<Seq<char>>) -> Seq<Seq<char>>
    decreases callees.len(),
{
    if callees.len() == 0 {
        Seq::empty()
    } else {
        let r = spec_resolve_calls(keys, callees.drop_last());
        match spec_resolve_callee(keys, callees.last()) {
            Some(x) => r.push(x),
            None => r,
        }
    }
}

proof fn lemma_matching_keys_subset(keys: Seq<Seq<char>>, callee: Seq<char>)
    ensures
        forall|x: Seq<char>| #[trigger] matching_keys(keys, callee).contains(x) ==> keys.contains(x),
    decreases keys.len(),
{
    if keys.len() > 0 {
        lemma_matching_keys_subset(keys.drop_last(), callee);
        let prev = matching_keys(keys.drop_last(), callee);
        assert forall|x: Seq<char>| #[trigger] matching_keys(keys, callee).contains(x) implies keys.contains(x) by {
            if prev.contains(x) {
                let k = choose|k: int| 0 <= k < keys.drop_last().len() && #[trigger] keys.drop_last()[k] == x;
                assert(keys[k] == x);
            } else if spec_callee_matches(keys.last(), callee) {
                let k = choose|k: int| 0 <= k < prev.push(keys.last()).len() && #[trigger] prev.push(keys.last())[k] == x;
                if k < prev.len() {
                    assert(prev[k] == x);
                }
                assert(keys[keys.len() - 1] == x);
            }
        }
    }
}

proof fn lemma_closest_key_member(ms: Seq<Seq<char>>, callee: Seq<char>)
    requires
        ms.len() > 0,
    ensures
        ms.contains(closest_key(ms, callee)),
    decreases ms.len(),
{
    if ms.len() <= 1 {
        assert(ms[0] == closest_key(ms, callee));
    } else {
        lemma_closest_key_member(ms.drop_last(), callee);
        let b = closest_key(ms.drop_last(), callee);
        if spec_score(callee, ms.last()) < spec_score(callee, b) {
            assert(ms[ms.len() - 1] == ms.last());
        } else {
            let k = choose|k: int| 0 <= k < ms.drop_last().len() && #[trigger] ms.drop_last()[k] == b;
            assert(ms[k] == b);
        }
    }
}

proof fn lemma_matching_keys_members(keys: Seq<Seq<char>>, callee: Seq<char>)
    ensures
        forall|x: Seq<char>| #[trigger] matching_keys(keys, callee).contains(x) <==> (keys.contains(x)
            && spec_callee_matches(x, callee)),
    decreases keys.len(),
{
    if keys.len() > 0 {
        lemma_matching_keys_members(keys.drop_last(), callee);
        let prev = matching_keys(keys.drop_last(), callee);
        assert forall|x: Seq<char>| #[trigger] matching_keys(keys, callee).contains(x) <==> (keys.contains(x)
            && spec_callee_matches(x, callee)) by {
            if keys.contains(x) && spec_callee_matches(x, callee) {
                let k = choose|k: int| 0 <= k < keys.len() && keys[k] == x;
                if k < keys.len() - 1 {
                    assert(keys.drop_last()[k] == x);
                    assert(prev.contains(x));
                    if spec_callee_matches(keys.last(), callee) {
                        let j = choose|j: int| 0 <= j < prev.len() && prev[j] == x;
                        assert(prev.push(keys.last())[j] == x);
                    }
                } else {
                    assert(prev.push(keys.last())[prev.len() as int] == x);
                }
            }
            if matching_keys(keys, callee).contains(x) {
                let m = matching_keys(keys, callee);
                let j = choose|j: int| 0 <= j < m.len() && m[j] == x;
                if spec_callee_matches(keys.last(), callee) && j == prev.len() {
                    assert(keys[keys.len() - 1] == x);
                } else {
                    assert(prev[j] == x);
                    assert(prev.contains(x));
                    let k = choose|k: int| 0 <= k < keys.drop_last().len() && keys.drop_last()[k] == x;
                    assert(keys[k] == x);
                }
            }
        }
    }
}

proof fn lemma_closest_key_least(ms: Seq<Seq<char>>, callee: Seq<char>)
    requires
        ms.len() > 0,
    ensures
        forall|i: int| 0 <= i < ms.len() ==> spec_score(callee, closest_key(ms, callee)) <= spec_score(callee, #[trigger] ms[i]),
    decreases ms.len(),
{
    if ms.len() > 1 {
        lemma_closest_key_least(ms.drop_last(), callee);
        assert forall|i: int| 0 <= i < ms.len() implies spec_score(callee, closest_key(ms, callee)) <= spec_score(
            callee,
            #[trigger] ms[i],
        ) by {
            if i < ms.len() - 1 {
                assert(ms.drop_last()[i] == ms[i]);
            }
        }
    }
}

/// A call that is a known signature resolves to itself. Any other call
/// resolves exactly when some signature matches it, to a matching known
/// signature, and no matching signature is closer to the call by edit
/// distance (`spec_score`).
pub proof fn lemma_resolved_callee_closest(keys: Seq<Seq<char>>, callee: Seq<char>)
    ensures
        keys.contains(callee) ==> spec_resolve_callee(keys, callee) == Some(callee),
        !keys.contains(callee) ==> (spec_resolve_callee(keys, callee) is Some <==> exists|k: Seq<char>|
            #[trigger] keys.contains(k) && spec_callee_matches(k, callee)),
        !keys.contains(callee) && spec_resolve_callee(keys, callee) is Some ==> {
            let r = spec_resolve_callee(keys, callee)->0;
            &&& keys.contains(r)
            &&& spec_callee_matches(r, callee)
            &&& forall|k: Seq<char>| #[trigger] keys.contains(k) && spec_callee_matches(k, callee) ==> spec_score(
                callee,
                r,
            ) <= spec_score(callee, k)
        },
{
    if !keys.contains(callee) {
        lemma_matching_keys_members(keys, callee);
        let ms = matching_keys(keys, callee);
        if ms.len() > 0 {
            lemma_closest_key_member(ms, callee);
            lemma_closest_key_least(ms, callee);
            assert(ms.contains(ms[0]));
            let r = spec_resolve_callee(keys, callee)->0;
            assert(ms.contains(r));
            assert forall|k: Seq<char>| #[trigger] keys.contains(k) && spec_callee_matches(k, callee) implies spec_score(
                callee,
                r,
            ) <= spec_score(callee, k) by {
                assert(ms.contains(k));
                let j = choose|j: int| 0 <= j < ms.len() && ms[j] == k;
                if ms.len() == 1 {
                    assert(j == 0);
                }
            }
        } else {
            assert forall|k: Seq<char>| #[trigger] keys.contains(k) && spec_callee_matches(k, callee) implies false by {
                assert(ms.contains(k));
            }
        }
    }
}

/// Every call that resolves, resolves to one of the known signatures.
pub proof fn lemma_resolved_calls_known(keys: Seq<Seq<char>>, callees: Seq<Seq<char>>)
    ensures
        forall|x: Seq<char>| #[trigger] spec_resolve_calls(keys, callees).contains(x) ==> keys.contains(x),
    decreases callees.len(),
{
    if callees.len() > 0 {
        lemma_resolved_calls_known(keys, callees.drop_last());
        let prev = spec_resolve_calls(keys, callees.drop_last());
        let c = callees.last();
        lemma_matching_keys_subset(keys, c);
        let ms = matching_keys(keys, c);
        if ms.len() > 1 {
            lemma_closest_key_member(ms, c);
        }
        if ms.len() == 1 {
            assert(ms.contains(ms[0]));
        }
        assert forall|x: Seq<char>| #[trigger] spec_resolve_calls(keys, callees).contains(x) implies keys.contains(x) by {
            match spec_resolve_callee(keys, c) {
                Some(r) => {
                    if !keys.contains(c) {
                        if ms.len() == 1 {
                            assert(ms.contains(r));
                        } else {
                            assert(ms.contains(r));
                        }
                    }
                    assert(keys.contains(r));
                    let k = choose|k: int| 0 <= k < prev.push(r).len() && #[trigger] prev.push(r)[k] == x;
                    if k < prev.len() {
                        assert(prev[k] == x);
                        assert(prev.contains(x));
                    }
                },
                None => {
                    assert(spec_resolve_calls(keys, callees) == prev);
                    assert(prev.contains(x));
                },
            }
        }
    }
}

/// The last method record with the signature `sig`.
pub open spec fn last_with_signature(ms: Seq<MethodRecord>, sig: Seq<char>) -> Option<MethodRecord>
    decreases ms.len(),
{
    if ms.len() == 0 {
        None
    } else if ms.last().signature == sig {
        Some(ms.last())
    } else {
        last_with_signature(ms.drop_last(), sig)
    }
}

pub open spec fn signatures(ms: Seq<MethodRecord>) -> Seq<Seq<char>> {
    ms.map_values(|m: MethodRecord| m.signature)
}

/// A method's callees once resolved against all the methods: those of the
/// last method with its signature, resolved against the signatures.
pub open spec fn spec_resolved_method(m: MethodRecord, all: Seq<MethodRecord>) -> MethodRecord {
    MethodRecord {
        callees: match last_with_signature(all, m.signature) {
            Some(l) => spec_resolve_calls(dedup(signatures(all)), l.callees),
            None => Seq::empty(),
        },
        ..m
    }
}

pub open spec fn opt_record(o: Option<MethodOutput>) -> Option<MethodRecord> {
    match o {
        Some(m) => Some(m@),
        None => None,
    }
}

proof fn lemma_last_with_signature(ms: Seq<MethodRecord>, sig: Seq<char>)
    ensures
        last_with_signature(ms, sig) is Some <==> dedup(signatures(ms)).contains(sig),
    decreases ms.len(),
{
    if ms.len() > 0 {
        lemma_last_with_signature(ms.drop_last(), sig);
        assert(signatures(ms).drop_last() =~= signatures(ms.drop_last()));
        assert(signatures(ms).last() == ms.last().signature);
        let d = dedup(signatures(ms.drop_last()));
        if ms.last().signature == sig {
            if !d.contains(sig) {
                assert(d.push(sig)[d.len() as int] == sig);
            }
        } else if !d.contains(ms.last().signature) {
            if d.push(ms.last().signature).contains(sig) {
                let k = choose|k: int| 0 <= k < d.push(ms.last().signature).len() && #[trigger] d.push(ms.last().signature)[k] == sig;
                assert(d[k] == sig);
            }
            if d.contains(sig) {
                let k = choose|k: int| 0 <= k < d.len() && #[trigger] d[k] == sig;
                assert(d.push(ms.last().signature)[k] == sig);
            }
        }
    }
}

/// Whether `k` is one of the strings.
fn has_key(keys: &Vec<String>, k: &str) -> (res: bool)
    ensures
        res == string_views(keys@).contains(k@),
{
    let mut i: usize = 0;
    while i < keys.len()
        invariant
            i <= keys.len(),
            forall|t: int| 0 <= t < i ==> keys@[t]@ != k@,
        decreases keys.len() - i,
    {
        if crate::text::str_eq(keys[i].as_str(), k) {
            proof {
                assert(string_views(keys@)[i as int] == k@);
            }
            return true;
        }
        i = i + 1;
    }
    proof {
        if string_views(keys@).contains(k@) {
            let t = choose|t: int| 0 <= t < string_views(keys@).len() && string_views(keys@)[t] == k@;
            assert(keys@[t]@ == k@);
        }
    }
    false
}

/// The score of a candidate, as `spec_score` gives it.
fn score(callee: &str, key: &str) -> (res: usize)
    ensures
        res == spec_score(callee@, key@),
{
    let a = chars_of(callee).len();
    let b = chars_of(key).len();
    if a < usize::MAX && b < usize::MAX {
        similarity_score(callee, key)
    } else {
        usize::MAX
    }
}

/// What a call resolves to among the keys.
fn resolve_callee(keys: &Vec<String>, callee: &str) -> (res: Option<String>)
    ensures
        opt_view(res) == spec_resolve_callee(string_views(keys@), callee@),
{
    let ghost kv = string_views(keys@);
    if has_key(keys, callee) {
        return Some(to_string(callee));
    }
    let suffix = concat("::", callee);
    let prefix = concat(callee, "::");
    let mut matching: Vec<String> = Vec::new();
    let mut i: usize = 0;
    proof {
        assert(kv.take(0) =~= Seq::<Seq<char>>::empty());
        assert(string_views(matching@) =~= Seq::<Seq<char>>::empty());
    }
    while i < keys.len()
        invariant
            i <= keys.len(),
            kv == string_views(keys@),
            suffix@ == "::"@ + callee@,
            prefix@ == callee@ + "::"@,
            string_views(matching@) == matching_keys(kv.take(i as int), callee@),
        decreases keys.len() - i,
    {
        proof {
            assert(kv.take(i + 1).drop_last() =~= kv.take(i as int));
            assert(kv.take(i + 1).last() == keys@[i as int]@);
        }
        let key = &keys[i];
        if str_ends_with(key.as_str(), suffix.as_str()) || str_contains(key.as_str(), prefix.as_str())
            || str_contains(key.as_str(), callee) {
            let ghost before = matching@;
            matching.push(key.clone());
            proof {
                lemma_string_views_push(before, matching@.last());
            }
        }
        i = i + 1;
    }
    proof {
        assert(kv.take(kv.len() as int) =~= kv);
    }
    let ghost ms = string_views(matching@);
    if matching.len() == 0 {
        return None;
    }
    if matching.len() == 1 {
        return Some(matching[0].clone());
    }
    let mut best: usize = 0;
    let mut best_score = score(callee, matching[0].as_str());
    let mut k: usize = 1;
    proof {
        assert(ms.take(1).len() == 1);
        assert(closest_key(ms.take(1), callee@) == ms[0]);
    }
    while k < matching.len()
        invariant
            1 <= k <= matching.len(),
            ms == string_views(matching@),
            best < k,
            ms[best as int] == closest_key(ms.take(k as int), callee@),
            best_score == spec_score(callee@, ms[best as int]),
        decreases matching.len() - k,
    {
        proof {
            assert(ms.take(k + 1).drop_last() =~= ms.take(k as int));
            assert(ms.take(k + 1).last() == ms[k as int]);
        }
        let s = score(callee, matching[k].as_str());
        if s < best_score {
            best = k;
            best_score = s;
        }
        k = k + 1;
    }
    proof {
        assert(ms.take(ms.len() as int) =~= ms);
    }
    Some(matching[best].clone())
}


// ---------------------------------------------------------------------------
// Documentation from rustdoc's pages
// ---------------------------------------------------------------------------

/// A documentation record as plain values.
pub struct CargoDocEntry {
    pub key: Seq<char>,
    pub name: Seq<char>,
    pub doc_comment: Option<Seq<char>>,
    pub doc_type: DocType,
    pub file: Seq<char>,
    pub line: u32,
}

/// Where an item's page says its source is, else the module at line 1.
pub open spec fn spec_doc_location(found: Option<(Seq<char>, u32)>, module: Seq<char>) -> (Seq<char>, u32) {
    match found {
        Some(p) => p,
        None => (module, 1),
    }
}

/// The kind of record for a type by the kind its page gives it.
pub open spec fn spec_doc_type_of(kind: Seq<char>) -> DocType {
    if kind == "struct"@ {
        DocType::Struct
    } else if kind == "enum"@ {
        DocType::Enum
    } else if kind == "trait"@ {
        DocType::Trait
    } else {
        DocType::Struct
    }
}

pub open spec fn function_entry(m: Seq<char>, d: CargoDocInfo, f: FunctionDocInfo) -> CargoDocEntry {
    let loc = spec_doc_location(spec_item_source_location(d.html_content@, SourceItemKind::Function, f.name@), m);
    CargoDocEntry {
        key: f.signature@,
        name: f.name@,
        doc_comment: opt_view(f.description),
        doc_type: DocType::Function,
        file: loc.0,
        line: loc.1,
    }
}

pub open spec fn type_entry(m: Seq<char>, d: CargoDocInfo, t: TypeDocInfo) -> CargoDocEntry {
    let loc = spec_doc_location(spec_item_source_location(d.html_content@, SourceItemKind::Type, t.name@), m);
    CargoDocEntry {
        key: t.name@,
        name: t.name@,
        doc_comment: opt_view(t.description),
        doc_type: spec_doc_type_of(t.kind@),
        file: loc.0,
        line: loc.1,
    }
}

/// The records a module's page gives: one for each function, under its
/// signature, then one for each type, under its name.
pub open spec fn module_entries(m: Seq<char>, d: CargoDocInfo) -> Seq<CargoDocEntry> {
    d.structured_info.functions@.map_values(|f: FunctionDocInfo| function_entry(m, d, f))
        + d.structured_info.types@.map_values(|t: TypeDocInfo| type_entry(m, d, t))
}

/// The records of all modules, module by module.
pub open spec fn cargo_doc_entries(c: CargoDocIntegrator, modules: Seq<Seq<char>>) -> Seq<CargoDocEntry>
    decreases modules.len(),
{
    if modules.len() == 0 {
        Seq::empty()
    } else {
        cargo_doc_entries(c, modules.drop_last()) + match c.doc_of(modules.last()) {
            Some(d) => module_entries(modules.last(), d),
            None => Seq::empty(),
        }
    }
}

/// The last record with the key `k`.
pub open spec fn last_entry(es: Seq<CargoDocEntry>, k: Seq<char>) -> Option<CargoDocEntry>
    decreases es.len(),
{
    if es.len() == 0 {
        None
    } else if es.last().key == k {
        Some(es.last())
    } else {
        last_entry(es.drop_last(), k)
    }
}

/// A documentation record holds what the entry gives, with no comments or
/// attributes, at column 1.
pub open spec fn doc_info_is(d: DocInfo, e: CargoDocEntry) -> bool {
    &&& d.name@ == e.name
    &&& opt_view(d.doc_comment) == e.doc_comment
    &&& d.inline_comments@.len() == 0
    &&& d.attributes@.len() == 0
    &&& d.doc_type == e.doc_type
    &&& d.location.file@ == e.file
    &&& d.location.line == e.line
    &&& d.location.column == 1
}

/// The documentation map holds, for each key, the last record with that key.
pub open spec fn doc_map_holds(map: DocMap, es: Seq<CargoDocEntry>) -> bool {
    forall|k: Seq<char>| match #[trigger] map.lookup(k) {
        Some(d) => last_entry(es, k) matches Some(e) && doc_info_is(d, e),
        None => last_entry(es, k) is None,
    }
}

/// Stores a record under its key.
fn store_entry(map: &mut DocMap, key: String, d: DocInfo, Ghost(es): Ghost<Seq<CargoDocEntry>>, Ghost(e): Ghost<CargoDocEntry>)
    requires
        old(map).wf(),
        doc_map_holds(*old(map), es),
        doc_info_is(d, e),
        key@ == e.key,
    ensures
        final(map).wf(),
        doc_map_holds(*final(map), es.push(e)),
{
    map.insert(key, d);
    proof {
        assert(es.push(e).drop_last() =~= es);
        assert forall|k: Seq<char>| match #[trigger] map.lookup(k) {
            Some(d2) => last_entry(es.push(e), k) matches Some(e2) && doc_info_is(d2, e2),
            None => last_entry(es.push(e), k) is None,
        } by {
            if k != e.key {
                assert(map.lookup(k) == old(map).lookup(k));
            }
        }
    }
}

// ---------------------------------------------------------------------------
// The analysis run
// ---------------------------------------------------------------------------

/// An analysis of the project at `source_path`, writing its records below
/// `output_path`.
pub struct RustAnalyzer {
    source_path: String,
    output_path: String,
    verbose: bool,
    cargo_analyzer: CargoAnalyzer,
    function_analyzer: FunctionAnalyzer,
    type_analyzer: TypeAnalyzer,
}

impl RustAnalyzer {
    pub closed spec fn spec_source_path(&self) -> Seq<char> {
        self.source_path@
    }

    pub closed spec fn spec_output_path(&self) -> Seq<char> {
        self.output_path@
    }

    pub closed spec fn spec_verbose(&self) -> bool {
        self.verbose
    }

    pub closed spec fn wf(&self) -> bool {
        self.type_analyzer.wf()
    }

    /// An analysis of the project at `source_path`; `has_manifest` tells
    /// whether a `Cargo.toml` is there.
    pub fn new(source_path: String, output_path: String, has_manifest: bool) -> (res: Result<Self, AnalyzerError>)
        ensures
            has_manifest ==> (res matches Ok(a) && a.wf() && a.spec_source_path() == source_path@
                && a.spec_output_path() == output_path@ && !a.spec_verbose()),
            !has_manifest ==> (res matches Err(e) && is_invalid_project(e, "Cargo.toml not found in "@ + source_path@)),
    {
        let cargo_analyzer = match CargoAnalyzer::new(source_path.as_str(), has_manifest) {
            Ok(c) => c,
            Err(e) => return Err(e),
        };
        Ok(RustAnalyzer {
            source_path,
            output_path,
            verbose: false,
            cargo_analyzer,
            function_analyzer: FunctionAnalyzer::new(),
            type_analyzer: TypeAnalyzer::new(),
        })
    }

    /// Turns detailed progress output on or off.
    pub fn set_verbose(&mut self, verbose: bool)
        ensures
            final(self).spec_verbose() == verbose,
            old(self).wf() ==> final(self).wf(),
            final(self).spec_source_path() == old(self).spec_source_path(),
            final(self).spec_output_path() == old(self).spec_output_path(),
    {
        self.verbose = verbose;
    }

    /// The project record made of what `cargo metadata` reported and, for a
    /// workspace, of the text of its root manifest (`Err` with the reason
    /// where it could not be read).
    pub fn analyze_project_metadata(&mut self, metadata: CargoMetadata, workspace_manifest: Result<String, String>) -> (res: Result<ProjectMetadata, AnalyzerError>)
        ensures
            final(self).spec_source_path() == old(self).spec_source_path(),
            final(self).spec_output_path() == old(self).spec_output_path(),
            final(self).spec_verbose() == old(self).spec_verbose(),
            old(self).wf() ==> final(self).wf(),
            project_result_ok(res, old(self).cargo_root(), metadata, workspace_manifest),
    {
        self.cargo_analyzer.analyze(metadata, workspace_manifest)
    }

    /// The project root that the metadata analysis looks for `Cargo.toml` in.
    pub closed spec fn cargo_root(&self) -> Seq<char> {
        self.cargo_analyzer.root()
    }

    /// The Levenshtein distance between `target` and `candidate`.
    pub fn calculate_similarity_score(&self, target: &str, candidate: &str) -> (res: usize)
        requires
            target@.len() < usize::MAX,
            candidate@.len() < usize::MAX,
        ensures
            res == edit_distance(target@, candidate@),
    {
        similarity_score(target, candidate)
    }

    /// The calls of the method stored under `method_signature`, each resolved
    /// against the stored signatures; none where no method is stored there.
    fn resolve_function_calls_cloned(&self, method_signature: &str, method_map: &StringMap<MethodOutput>) -> (res: Vec<String>)
        requires
            method_map.wf(),
        ensures
            string_views(res@) == match method_map.lookup(method_signature@) {
                Some(m) => spec_resolve_calls(method_map.key_seq(), m@.callees),
                None => Seq::empty(),
            },
    {
        match method_map.get(method_signature) {
            Some(method) => {
                let keys = method_map.keys();
                let ghost kv = method_map.key_seq();
                let ghost cv = method@.callees;
                let mut resolved_calls: Vec<String> = Vec::new();
                let mut i: usize = 0;
                proof {
                    assert(string_views(keys@) =~= kv);
                    assert(cv.take(0) =~= Seq::<Seq<char>>::empty());
                    assert(string_views(resolved_calls@) =~= Seq::<Seq<char>>::empty());
                }
                while i < method.callees.len()
                    invariant
                        i <= method.callees.len(),
                        string_views(keys@) == kv,
                        cv == method@.callees,
                        string_views(resolved_calls@) == spec_resolve_calls(kv, cv.take(i as int)),
                    decreases method.callees.len() - i,
                {
                    proof {
                        assert(cv.take(i + 1).drop_last() =~= cv.take(i as int));
                        assert(cv.take(i + 1).last() == method.callees@[i as int]@);
                    }
                    match resolve_callee(keys, method.callees[i].as_str()) {
                        Some(r) => {
                            let ghost before = resolved_calls@;
                            resolved_calls.push(r);
                            proof {
                                lemma_string_views_push(before, resolved_calls@.last());
                            }
                        },
                        None => {},
                    }
                    i = i + 1;
                }
                proof {
                    assert(cv.take(cv.len() as int) =~= cv);
                }
                resolved_calls
            },
            None => {
                let v: Vec<String> = Vec::new();
                proof {
                    assert(string_views(v@) =~= Seq::<Seq<char>>::empty());
                }
                v
            },
        }
    }

    /// Resolves the calls of every method against all the methods' signatures:
    /// a method's callees become those of the last method with its signature,
    /// each resolved.
    fn resolve_cross_references(&self, methods: &mut Vec<MethodOutput>, structs: &Vec<StructOutput>) -> (res: Result<(), AnalyzerError>)
        ensures
            res is Ok,
            final(methods)@.len() == old(methods)@.len(),
            forall|i: int| 0 <= i < old(methods)@.len() ==> (#[trigger] final(methods)@[i])@
                == spec_resolved_method(old(methods)@[i]@, crate::function_analyzer::records_of(old(methods)@)),
    {
        let ghost olds = methods@;
        let ghost recs = crate::function_analyzer::records_of(olds);
        let mut method_map: StringMap<MethodOutput> = StringMap::new();
        let mut i: usize = 0;
        proof {
            assert(recs.take(0) =~= Seq::<MethodRecord>::empty());
            assert(signatures(recs.take(0)) =~= Seq::<Seq<char>>::empty());
        }
        while i < methods.len()
            invariant
                method_map.wf(),
                i <= methods.len(),
                methods@ == olds,
                recs == crate::function_analyzer::records_of(olds),
                method_map.key_seq() == dedup(signatures(recs.take(i as int))),
                forall|k: Seq<char>| #[trigger] opt_record(method_map.lookup(k)) == last_with_signature(recs.take(i as int), k),
            decreases methods.len() - i,
        {
            proof {
                assert(recs.take(i + 1).drop_last() =~= recs.take(i as int));
                assert(recs.take(i + 1).last() == methods@[i as int]@);
                assert(signatures(recs.take(i + 1)).drop_last() =~= signatures(recs.take(i as int)));
                assert(signatures(recs.take(i + 1)).last() == methods@[i as int]@.signature);
                method_map.lemma_lookup_key(methods@[i as int]@.signature);
                lemma_last_with_signature(recs.take(i as int), methods@[i as int]@.signature);
            }
            let copy = copy_method(&methods[i]);
            method_map.insert(methods[i].signature.clone(), copy);
            i = i + 1;
        }
        proof {
            assert(recs.take(recs.len() as int) =~= recs);
        }
        let mut k: usize = 0;
        while k < methods.len()
            invariant
                method_map.wf(),
                k <= methods.len(),
                methods@.len() == olds.len(),
                recs == crate::function_analyzer::records_of(olds),
                method_map.key_seq() == dedup(signatures(recs)),
                forall|s: Seq<char>| #[trigger] opt_record(method_map.lookup(s)) == last_with_signature(recs, s),
                forall|j: int| 0 <= j < k ==> (#[trigger] methods@[j])@ == spec_resolved_method(olds[j]@, recs),
                forall|j: int| k <= j < methods@.len() ==> #[trigger] methods@[j] == olds[j],
            decreases methods.len() - k,
        {
            let ghost sig = methods@[k as int]@.signature;
            let resolved = self.resolve_function_calls_cloned(methods[k].signature.as_str(), &method_map);
            let mut updated = copy_method(&methods[k]);
            updated.callees = resolved;
            methods.set(k, updated);
            proof {
                assert(opt_record(method_map.lookup(sig)) == last_with_signature(recs, sig));
                assert(methods@[k as int]@ == spec_resolved_method(olds[k as int]@, recs));
            }
            k = k + 1;
        }
        Ok(())
    }

    /// The documentation records that rustdoc's pages give, module by module
    /// in the order the integrator stored them: one for each documented
    /// function under its signature and one for each documented type under
    /// its name, a later record replacing an earlier one of the same key.
    pub fn extract_doc_info_from_cargo_doc(&self, cargo_doc_integrator: &CargoDocIntegrator) -> (res: Result<DocMap, AnalyzerError>)
        requires
            cargo_doc_integrator.wf(),
        ensures
            res matches Ok(map) && map.wf()
                && doc_map_holds(map, cargo_doc_entries(*cargo_doc_integrator, cargo_doc_integrator.doc_modules())),
    {
        let ghost c = *cargo_doc_integrator;
        let parsed_docs = cargo_doc_integrator.get_parsed_docs();
        let ghost mods = c.doc_modules();
        let module_names = parsed_docs.keys();
        let mut doc_map: DocMap = StringMap::new();
        let mut i: usize = 0;
        proof {
            assert(string_views(module_names@) =~= mods);
            assert(mods.take(0) =~= Seq::<Seq<char>>::empty());
        }
        while i < module_names.len()
            invariant
                doc_map.wf(),
                parsed_docs.wf(),
                c == *cargo_doc_integrator,
                c.wf(),
                i <= module_names.len(),
                string_views(module_names@) == mods,
                mods == c.doc_modules(),
                forall|m: Seq<char>| #[trigger] parsed_docs.lookup(m) == c.doc_of(m),
                doc_map_holds(doc_map, cargo_doc_entries(c, mods.take(i as int))),
            decreases module_names.len() - i,
        {
            let module_name = &module_names[i];
            proof {
                assert(mods.take(i + 1).drop_last() =~= mods.take(i as int));
                assert(mods.take(i + 1).last() == module_name@);
                parsed_docs.lemma_lookup_key(module_name@);
                assert(mods[i as int] == module_name@);
            }
            let ghost base = cargo_doc_entries(c, mods.take(i as int));
            match parsed_docs.get(module_name.as_str()) {
                Some(cargo_doc_info) => {
                    let ghost d = *cargo_doc_info;
                    let functions = &cargo_doc_info.structured_info.functions;
                    let types = &cargo_doc_info.structured_info.types;
                    let ghost fe = functions@.map_values(|f: FunctionDocInfo| function_entry(module_name@, d, f));
                    let ghost te = types@.map_values(|t: TypeDocInfo| type_entry(module_name@, d, t));
                    let mut j: usize = 0;
                    proof {
                        assert(base + fe.take(0) =~= base);
                    }
                    while j < functions.len()
                        invariant
                            doc_map.wf(),
                            c == *cargo_doc_integrator,
                            c.wf(),
                            c.doc_of(module_name@) == Some(d),
                            d == *cargo_doc_info,
                            *functions == d.structured_info.functions,
                            j <= functions.len(),
                            fe == functions@.map_values(|f: FunctionDocInfo| function_entry(module_name@, d, f)),
                            doc_map_holds(doc_map, base + fe.take(j as int)),
                        decreases functions.len() - j,
                    {
                        let func_doc = &functions[j];
                        let (file, line) = match cargo_doc_integrator.find_function_source_location(module_name.as_str(), func_doc.name.as_str()) {
                            Some((f, l)) => (f, l),
                            None => (module_name.clone(), 1u32),
                        };
                        let info = DocInfo {
                            name: func_doc.name.clone(),
                            doc_comment: crate::text::copy_opt(&func_doc.description),
                            inline_comments: Vec::new(),
                            attributes: Vec::new(),
                            doc_type: DocType::Function,
                            location: DocLocation { file, line, column: 1 },
                        };
                        proof {
                            assert((base + fe.take(j as int)).push(fe[j as int]) =~= base + fe.take(j + 1));
                            assert(fe[j as int] == function_entry(module_name@, d, *func_doc));
                        }
                        store_entry(&mut doc_map, func_doc.signature.clone(), info, Ghost(base + fe.take(j as int)), Ghost(fe[j as int]));
                        j = j + 1;
                    }
                    proof {
                        assert(fe.take(fe.len() as int) =~= fe);
                        assert(base + fe + te.take(0) =~= base + fe);
                    }
                    let mut t: usize = 0;
                    while t < types.len()
                        invariant
                            doc_map.wf(),
                            c == *cargo_doc_integrator,
                            c.wf(),
                            c.doc_of(module_name@) == Some(d),
                            d == *cargo_doc_info,
                            *types == d.structured_info.types,
                            t <= types.len(),
                            te == types@.map_values(|x: TypeDocInfo| type_entry(module_name@, d, x)),
                            doc_map_holds(doc_map, base + fe + te.take(t as int)),
                        decreases types.len() - t,
                    {
                        let type_doc = &types[t];
                        let (file, line) = match cargo_doc_integrator.find_type_source_location(module_name.as_str(), type_doc.name.as_str()) {
                            Some((f, l)) => (f, l),
                            None => (module_name.clone(), 1u32),
                        };
                        let kind = type_doc.kind.as_str();
                        let doc_type = if crate::text::str_eq(kind, "struct") {
                            DocType::Struct
                        } else if crate::text::str_eq(kind, "enum") {
                            DocType::Enum
                        } else if crate::text::str_eq(kind, "trait") {
                            DocType::Trait
                        } else {
                            DocType::Struct
                        };
                        let info = DocInfo {
                            name: type_doc.name.clone(),
                            doc_comment: crate::text::copy_opt(&type_doc.description),
                            inline_comments: Vec::new(),
                            attributes: Vec::new(),
                            doc_type,
                            location: DocLocation { file, line, column: 1 },
                        };
                        proof {
                            assert((base + fe + te.take(t as int)).push(te[t as int]) =~= base + fe + te.take(t + 1));
                            assert(te[t as int] == type_entry(module_name@, d, *type_doc));
                        }
                        store_entry(&mut doc_map, type_doc.name.clone(), info, Ghost(base + fe + te.take(t as int)), Ghost(te[t as int]));
                        t = t + 1;
                    }
                    proof {
                        assert(te.take(te.len() as int) =~= te);
                        assert(base + fe + te =~= base + module_entries(module_name@, d));
                    }
                },
                None => {
                    proof {
                        assert(base + Seq::<CargoDocEntry>::empty() =~= base);
                    }
                },
            }
            i = i + 1;
        }
        proof {
            assert(mods.take(mods.len() as int) =~= mods);
        }
        Ok(doc_map)
    }
}


/// The function records of all files, file by file.
pub open spec fn spec_all_fn_records(files: Seq<(String, SourceFile)>, root: Seq<char>, cwd: Option<Seq<char>>) -> Seq<MethodRecord>
    decreases files.len(),
{
    if files.len() == 0 {
        Seq::empty()
    } else {
        let f = files.last();
        spec_all_fn_records(files.drop_last(), root, cwd)
            + spec_file_records(spec_module_path(f.0@, root), f.1.items@, spec_relative_path(f.0@, cwd))
    }
}

/// The type records of all files, file by file.
pub open spec fn spec_all_type_records(files: Seq<(String, SourceFile)>, root: Seq<char>, cwd: Option<Seq<char>>) -> Seq<StructRecord>
    decreases files.len(),
{
    if files.len() == 0 {
        Seq::empty()
    } else {
        let f = files.last();
        spec_all_type_records(files.drop_last(), root, cwd)
            + spec_type_file_records(spec_module_path(f.0@, root), f.1.items@, f.1.items@, spec_relative_path(f.0@, cwd))
    }
}

/// Each file's text is short enough for its lines to be numbered.
pub open spec fn texts_fit(texts: Seq<String>) -> bool {
    forall|i: int| 0 <= i < texts.len() ==> byte_len((#[trigger] texts[i])@) <= usize::MAX && newline_count(texts[i]@) < u32::MAX
}

pub open spec fn is_analysis_error(e: AnalyzerError, context: Seq<char>, message: Seq<char>) -> bool {
    e matches AnalyzerError::AnalysisError { context: c, message: m } && c@ == context && m@ == message
}

/// Each method's record is its resolved record with the callees of the
/// given cross-crate calls merged in.
pub open spec fn methods_merged(
    methods: Seq<MethodOutput>,
    fns: Seq<MethodRecord>,
    calls: Seq<(Seq<char>, Seq<char>, Seq<char>, Seq<char>, CrossCrateCallType)>,
) -> bool {
    forall|i: int| 0 <= i < fns.len() ==> (#[trigger] methods[i])@
        == spec_updated_method(spec_resolved_method(fns[i], fns), spec_cross_callees(calls, fns[i].signature))
}

/// Each method's signature with its callees.
pub open spec fn caller_callees(ms: Seq<MethodRecord>) -> Seq<(Seq<char>, Seq<Seq<char>>)> {
    ms.map_values(|m: MethodRecord| (m.signature, m.callees))
}

/// Each method's record with its calls resolved against all of `fns`.
pub open spec fn resolved_records(fns: Seq<MethodRecord>) -> Seq<MethodRecord> {
    fns.map_values(|f: MethodRecord| spec_resolved_method(f, fns))
}

/// What an analysis run finds in the sources.
pub struct AnalysisOutcome {
    pub methods: Vec<MethodOutput>,
    pub structs: Vec<StructOutput>,
}

impl RustAnalyzer {
    /// The analysis of the parsed sources: `files_found` is how many source
    /// files were found, `parsed_files` each file parsed (its path and
    /// syntax), `source_contents` their texts, `cwd_project_root` the directory holding `Cargo.toml` that
    /// the caller found, `cargo_lock` the text of the workspace's lock file
    /// if there is one, and `found_on_disk` the source directories found on
    /// disk for the packages it names. Functions and types are read file by
    /// file; calls are resolved against the functions found; then the
    /// callees of calls that cross a crate boundary are merged into the
    /// callers' records.
    pub fn analyze_sources(
        &mut self,
        project_metadata: ProjectMetadata,
        files_found: usize,
        parsed_files: &Vec<(String, SourceFile)>,
        source_contents: &Vec<String>,
        cwd_project_root: &Option<String>,
        cargo_lock: &Option<String>,
        found_on_disk: &StringMap<String>,
    ) -> (res: Result<AnalysisOutcome, AnalyzerError>)
        requires
            old(self).wf(),
            found_on_disk.wf(),
            source_contents@.len() == parsed_files@.len(),
            texts_fit(source_contents@),
        ensures
            final(self).wf(),
            final(self).spec_source_path() == old(self).spec_source_path(),
            final(self).spec_output_path() == old(self).spec_output_path(),
            final(self).spec_verbose() == old(self).spec_verbose(),
            files_found == 0 ==> (res matches Err(e)
                && is_analysis_error(e, "file_discovery"@, "项目中未找到Rust源文件"@)),
            files_found > 0 ==> (res matches Ok(out) && {
                let fns = spec_all_fn_records(parsed_files@, old(self).spec_source_path(), opt_string(*cwd_project_root));
                &&& struct_records_of(out.structs@) == spec_all_type_records(parsed_files@, old(self).spec_source_path(), opt_string(*cwd_project_root))
                &&& out.methods@.len() == fns.len()
                &&& methods_merged(out.methods@, fns, spec_cross_calls(
                    setup_crate_of(project_metadata.packages@, project_metadata.name@, opt_string(*cargo_lock), *found_on_disk),
                    caller_callees(resolved_records(fns)),
                ))
            }),
    {
        if files_found == 0 {
            return Err(AnalyzerError::analysis_error(to_string("file_discovery"), to_string("项目中未找到Rust源文件")));
        }
        let ghost root = self.source_path@;
        let ghost cwd = opt_string(*cwd_project_root);
        let ghost pf = parsed_files@;
        let mut all_methods: Vec<MethodOutput> = Vec::new();
        let mut i: usize = 0;
        proof {
            assert(pf.take(0) =~= Seq::<(String, SourceFile)>::empty());
            assert(records_of(all_methods@) =~= Seq::<MethodRecord>::empty());
        }
        while i < parsed_files.len()
            invariant
                i <= parsed_files.len(),
                pf == parsed_files@,
                source_contents@.len() == pf.len(),
                texts_fit(source_contents@),
                root == self.source_path@,
                cwd == opt_string(*cwd_project_root),
                self.spec_source_path() == old(self).spec_source_path(),
                self.spec_output_path() == old(self).spec_output_path(),
                self.spec_verbose() == old(self).spec_verbose(),
                self.type_analyzer.wf(),
                records_of(all_methods@) == spec_all_fn_records(pf.take(i as int), root, cwd),
            decreases parsed_files.len() - i,
        {
            proof {
                assert(pf.take(i + 1).drop_last() =~= pf.take(i as int));
                assert(pf.take(i + 1).last() == pf[i as int]);
                assert(byte_len(source_contents@[i as int]@) <= usize::MAX && newline_count(source_contents@[i as int]@) < u32::MAX);
            }
            let file = &parsed_files[i];
            match self.function_analyzer.analyze_file(file.0.as_str(), &file.1, self.source_path.as_str(), source_contents[i].clone(), cwd_project_root) {
                Ok(methods) => {
                    let mut methods = methods;
                    let ghost a = all_methods@;
                    let ghost b = methods@;
                    all_methods.append(&mut methods);
                    proof {
                        assert(records_of(all_methods@) =~= records_of(a) + records_of(b));
                    }
                },
                Err(e) => return Err(e),
            }
            i = i + 1;
        }
        proof {
            assert(pf.take(pf.len() as int) =~= pf);
        }
        let mut all_structs: Vec<StructOutput> = Vec::new();
        let mut k: usize = 0;
        proof {
            assert(struct_records_of(all_structs@) =~= Seq::<StructRecord>::empty());
        }
        while k < parsed_files.len()
            invariant
                k <= parsed_files.len(),
                pf == parsed_files@,
                source_contents@.len() == pf.len(),
                root == self.source_path@,
                cwd == opt_string(*cwd_project_root),
                self.spec_source_path() == old(self).spec_source_path(),
                self.spec_output_path() == old(self).spec_output_path(),
                self.spec_verbose() == old(self).spec_verbose(),
                self.type_analyzer.wf(),
                struct_records_of(all_structs@) == spec_all_type_records(pf.take(k as int), root, cwd),
            decreases parsed_files.len() - k,
        {
            proof {
                assert(pf.take(k + 1).drop_last() =~= pf.take(k as int));
                assert(pf.take(k + 1).last() == pf[k as int]);
            }
            let file = &parsed_files[k];
            match self.type_analyzer.analyze_file(file.0.as_str(), &file.1, self.source_path.as_str(), source_contents[k].clone(), cwd_project_root) {
                Ok(structs) => {
                    let mut structs = structs;
                    let ghost a = all_structs@;
                    let ghost b = structs@;
                    all_structs.append(&mut structs);
                    proof {
                        assert(struct_records_of(all_structs@) =~= struct_records_of(a) + struct_records_of(b));
                    }
                },
                Err(e) => return Err(e),
            }
            k = k + 1;
        }
        proof {
            assert(pf.take(pf.len() as int) =~= pf);
        }
        let ghost fns = records_of(all_methods@);
        match self.resolve_cross_references(&mut all_methods, &all_structs) {
            Ok(()) => {},
            Err(e) => return Err(e),
        }
        let ghost resolved = all_methods@;
        let ghost packages = project_metadata.packages@;
        let ghost project = project_metadata.name@;
        let ghost crate_of = setup_crate_of(packages, project, opt_string(*cargo_lock), *found_on_disk);
        let mut cross_crate_analyzer = CrossCrateAnalyzer::new(project_metadata);
        match cargo_lock {
            Some(content) => cross_crate_analyzer.parse_cargo_lock(content.as_str(), found_on_disk),
            None => {},
        }
        match cross_crate_analyzer.analyze_use_statements(parsed_files) {
            Ok(()) => {},
            Err(e) => return Err(e),
        }
        proof {
            assert forall|sig: Seq<char>| #[trigger] (cross_crate_analyzer.crate_fn())(sig) == crate_of(sig) by {
                let f = crate::cross_crate_analyzer::spec_first_segment(sig);
                assert(cross_crate_analyzer.crate_path_of(f) is Some
                    <==> crate_source_known(packages, opt_string(*cargo_lock), *found_on_disk, f));
            }
            assert(cross_crate_analyzer.crate_fn() =~= crate_of);
        }
        let mut function_calls: Vec<(String, Vec<String>)> = Vec::new();
        let mut m: usize = 0;
        while m < all_methods.len()
            invariant
                m <= all_methods.len(),
                all_methods@ == resolved,
                calls_by_caller_view(function_calls@) == caller_callees(records_of(resolved)).take(m as int),
            decreases all_methods.len() - m,
        {
            let ghost before = function_calls@;
            function_calls.push((all_methods[m].signature.clone(), crate::text::copy_strings(&all_methods[m].callees)));
            proof {
                assert(calls_by_caller_view(function_calls@) =~= calls_by_caller_view(before).push(
                    caller_callees(records_of(resolved))[m as int],
                ));
                assert(caller_callees(records_of(resolved)).take(m + 1) =~= caller_callees(records_of(resolved)).take(m as int).push(
                    caller_callees(records_of(resolved))[m as int],
                ));
            }
            m = m + 1;
        }
        proof {
            assert(caller_callees(records_of(resolved)).take(all_methods@.len() as int) =~= caller_callees(records_of(resolved)));
            assert(records_of(resolved) =~= resolved_records(fns));
        }
        let cross_crate_calls = match cross_crate_analyzer.resolve_cross_crate_calls(&function_calls) {
            Ok(c) => c,
            Err(e) => return Err(e),
        };
        match cross_crate_analyzer.update_method_callees(&mut all_methods, &cross_crate_calls) {
            Ok(()) => {},
            Err(e) => return Err(e),
        }
        let mut doc_analyzer = DocAnalyzer::new();
        let mut d: usize = 0;
        while d < parsed_files.len()
            invariant
                d <= parsed_files.len(),
                source_contents@.len() == parsed_files@.len(),
                doc_analyzer.wf(),
            decreases parsed_files.len() - d,
        {
            let file = &parsed_files[d];
            match doc_analyzer.analyze_file(file.0.as_str(), &file.1, self.source_path.as_str(), source_contents[d].as_str()) {
                Ok(()) => {},
                Err(e) => return Err(e),
            }
            d = d + 1;
        }
        proof {
            let calls = crate::cross_crate_analyzer::calls_view(cross_crate_calls@);
            assert forall|i: int| 0 <= i < fns.len() implies (#[trigger] all_methods@[i])@
                == spec_updated_method(spec_resolved_method(fns[i], fns), spec_cross_callees(calls, fns[i].signature)) by {
                assert(resolved[i]@ == spec_resolved_method(records_of(resolved)[i], fns)) by {
                    assert(records_of(resolved).len() == fns.len());
                };
            }
            assert(methods_merged(all_methods@, fns, calls));
        }
        Ok(AnalysisOutcome { methods: all_methods, structs: all_structs })
    }
}


/// The error that an unreadable file gives.
pub open spec fn is_read_error(e: AnalyzerError, path: Seq<char>, reason: Seq<char>) -> bool {
    e matches AnalyzerError::AnalysisError { context, message } && context@ == "reading file "@ + path
        && message@ == reason
}

/// The error that a file which does not parse gives.
pub open spec fn is_parse_error(e: AnalyzerError, path: Seq<char>, reason: Seq<char>) -> bool {
    e matches AnalyzerError::SyntaxError { file, message } && file@ == path
        && message@ == "Failed to parse syntax: "@ + reason
}

/// What reading and parsing a file gives: the error that it could not be
/// read (`Err` holds the reason) or parsed, or the file that its parse
/// stands for.
pub open spec fn parse_file_ok(res: Result<SourceFile, AnalyzerError>, path: Seq<char>, content: Result<String, String>) -> bool {
    match content {
        Err(reason) => res matches Err(e) && is_read_error(e, path, reason@),
        Ok(text) => match spec_parse_source(text@) {
            Err(m) => res matches Err(e) && is_parse_error(e, path, m),
            Ok(raw) => res matches Ok(f) && file_of(raw, f),
        },
    }
}

/// The files that an analysis reads, in order, with their texts: those that
/// are not test files and that can be read and parsed.
pub open spec fn parsed_sources(
    files: Seq<(String, Result<String, String>)>,
    fs: Seq<(String, SourceFile)>,
    ts: Seq<String>,
) -> bool
    decreases files.len(),
{
    if files.len() == 0 {
        fs.len() == 0 && ts.len() == 0
    } else {
        let (path, content) = files.last();
        let rest = parsed_sources(files.drop_last(), fs, ts);
        if spec_is_test_file(path@) {
            rest
        } else {
            match content {
                Err(_) => rest,
                Ok(text) => match spec_parse_source(text@) {
                    Err(_) => rest,
                    Ok(raw) => {
                        &&& fs.len() > 0
                        &&& ts.len() == fs.len()
                        &&& fs.last().0 == path
                        &&& file_of(raw, fs.last().1)
                        &&& ts.last() == text
                        &&& parsed_sources(files.drop_last(), fs.drop_last(), ts.drop_last())
                    },
                },
            }
        }
    }
}

/// A text that could be read is short enough for its lines to be numbered.
pub open spec fn text_fits(content: Result<String, String>) -> bool {
    match content {
        Ok(t) => byte_len(t@) <= usize::MAX && newline_count(t@) < u32::MAX,
        Err(_) => true,
    }
}

/// The texts that could be read are short enough for their lines to be
/// numbered.
pub open spec fn readable_texts_fit(files: Seq<(String, Result<String, String>)>) -> bool {
    forall|i: int| 0 <= i < files.len() ==> text_fits(#[trigger] files[i].1)
}

/// What an analysis gives for the parsed files `pf`.
pub open spec fn outcome_ok(
    res: Result<AnalysisOutcome, AnalyzerError>,
    files_found: usize,
    pf: Seq<(String, SourceFile)>,
    root: Seq<char>,
    cwd_project_root: Option<String>,
    project_metadata: ProjectMetadata,
    cargo_lock: Option<String>,
    found_on_disk: StringMap<String>,
) -> bool {
    &&& files_found == 0 ==> (res matches Err(e) && is_analysis_error(e, "file_discovery"@, "项目中未找到Rust源文件"@))
    &&& files_found > 0 ==> (res matches Ok(out) && {
        let fns = spec_all_fn_records(pf, root, opt_string(cwd_project_root));
        &&& struct_records_of(out.structs@) == spec_all_type_records(pf, root, opt_string(cwd_project_root))
        &&& out.methods@.len() == fns.len()
        &&& methods_merged(out.methods@, fns, spec_cross_calls(
            setup_crate_of(project_metadata.packages@, project_metadata.name@, opt_string(cargo_lock), found_on_disk),
            caller_callees(resolved_records(fns)),
        ))
    })
}

impl RustAnalyzer {
    /// Parses the text of the source file at `file_path` (`Err` holds the
    /// reason it could not be read) with `syn`.
    pub fn parse_file(&self, file_path: &str, content: &Result<String, String>) -> (res: Result<SourceFile, AnalyzerError>)
        ensures
            parse_file_ok(res, file_path@, *content),
    {
        match content {
            Err(reason) => Err(AnalyzerError::analysis_error(concat("reading file ", file_path), reason.clone())),
            Ok(text) => match parse_source(text.as_str()) {
                Err(m) => Err(AnalyzerError::syntax_error(to_string(file_path), concat("Failed to parse syntax: ", m.as_str()))),
                Ok(raw) => Ok(source_file_of(raw)),
            },
        }
    }

    /// The analysis of a project's source files: `files_found` is how many
    /// Rust files were found, `files` each file's path and text (`Err` with
    /// the reason where it could not be read). Test files are passed over,
    /// and so are files that cannot be read or parsed; the others are
    /// analysed as `analyze_sources` does.
    pub fn analyze_project_files(
        &mut self,
        project_metadata: ProjectMetadata,
        files_found: usize,
        files: Vec<(String, Result<String, String>)>,
        cwd_project_root: &Option<String>,
        cargo_lock: &Option<String>,
        found_on_disk: &StringMap<String>,
    ) -> (res: Result<AnalysisOutcome, AnalyzerError>)
        requires
            old(self).wf(),
            found_on_disk.wf(),
            readable_texts_fit(files@),
        ensures
            final(self).wf(),
            final(self).spec_source_path() == old(self).spec_source_path(),
            final(self).spec_output_path() == old(self).spec_output_path(),
            final(self).spec_verbose() == old(self).spec_verbose(),
            exists|fs: Seq<(String, SourceFile)>, ts: Seq<String>|
                #[trigger] parsed_sources(files@, fs, ts) && outcome_ok(
                    res,
                    files_found,
                    fs,
                    old(self).spec_source_path(),
                    *cwd_project_root,
                    project_metadata,
                    *cargo_lock,
                    *found_on_disk,
                ),
    {
        let ghost all = files@;
        let mut parsed: Vec<(String, SourceFile)> = Vec::new();
        let mut texts: Vec<String> = Vec::new();
        let mut rest = files;
        let ghost mut k: int = 0;
        proof {
            assert(all.subrange(0, 0) =~= Seq::<(String, Result<String, String>)>::empty());
            assert(all.subrange(0, all.len() as int) =~= all);
        }
        while rest.len() > 0
            invariant
                0 <= k <= all.len(),
                rest@ == all.subrange(k, all.len() as int),
                parsed_sources(all.subrange(0, k), parsed@, texts@),
                parsed@.len() == texts@.len(),
                readable_texts_fit(all),
                forall|i: int| 0 <= i < texts@.len() ==> byte_len((#[trigger] texts@[i])@) <= usize::MAX
                    && newline_count(texts@[i]@) < u32::MAX,
            decreases rest.len(),
        {
            let (path, content) = rest.remove(0);
            proof {
                assert((path, content) == all[k]);
                let pre = all.subrange(0, k + 1);
                assert(pre.drop_last() =~= all.subrange(0, k));
                assert(pre.last() == all[k]);
                assert(rest@ =~= all.subrange(k + 1, all.len() as int));
            }
            if !is_test_file(path.as_str()) {
                let r = self.parse_file(path.as_str(), &content);
                match content {
                    Ok(text) => match r {
                        Ok(f) => {
                            let ghost pv = parsed@;
                            let ghost tv = texts@;
                            parsed.push((path, f));
                            texts.push(text);
                            proof {
                                assert(parsed@.drop_last() =~= pv);
                                assert(texts@.drop_last() =~= tv);
                                assert(text_fits(all[k].1));
                            }
                        },
                        Err(_) => {},
                    },
                    Err(_) => {},
                }
            }
            proof {
                k = k + 1;
            }
        }
        proof {
            assert(all.subrange(0, k) =~= all);
        }
        let res = self.analyze_sources(project_metadata, files_found, &parsed, &texts, cwd_project_root, cargo_lock, found_on_disk);
        proof {
            assert(parsed_sources(files@, parsed@, texts@));
        }
        res
    }
}

} // verus!
