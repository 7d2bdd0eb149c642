//! `KEY=VALUE` variables: an insertion-ordered map from names to values.

use vstd::prelude::*;
use crate::error::CliError;
use crate::text::{find_first, first_index, head_until, is_first_index, lemma_first_index, tail_from};

verus! {

/// A name with its value, as plain text.
pub type Entry = (Seq<char>, Seq<char>);

/// Whether no two entries share a name.
pub open spec fn distinct_keys(es: Seq<Entry>) -> bool {
    forall|i: int, j: int|
        0 <= i < es.len() && 0 <= j < es.len() && i != j ==> #[trigger] es[i].0 != #[trigger] es[j].0
}

/// Whether some entry is named `k`.
pub open spec fn has_key(es: Seq<Entry>, k: Seq<char>) -> bool {
    exists|i: int| 0 <= i < es.len() && #[trigger] es[i].0 == k
}

/// The position of the entry named `k` (meaningful when there is one).
pub open spec fn key_index(es: Seq<Entry>, k: Seq<char>) -> int {
    choose|i: int| 0 <= i < es.len() && #[trigger] es[i].0 == k
}

/// Assigning `v` to `k`: the entry named `k` gets the new value in place, or a
/// new entry is appended when there is none.
pub open spec fn insert_entry(es: Seq<Entry>, k: Seq<char>, v: Seq<char>) -> Seq<Entry> {
    if has_key(es, k) {
        es.update(key_index(es, k), (k, v))
    } else {
        es.push((k, v))
    }
}

/// The value assigned to `k`, if any.
pub open spec fn lookup(es: Seq<Entry>, k: Seq<char>) -> Option<Seq<char>> {
    if has_key(es, k) {
        Some(es[key_index(es, k)].1)
    } else {
        None
    }
}

/// One variable: a name and its value.
#[derive(Debug)]
pub struct Variable {
    pub key: String,
    pub value: String,
}

impl View for Variable {
    type V = Entry;

    open spec fn view(&self) -> Entry {
        (self.key@, self.value@)
    }
}

/// Variables in the order their names were first given; each name occurs once.
///
/// This stands where a `HashMap<String, String>` could: vstd's specification of
/// `HashMap` holds only for keys that obey its key model, which vstd grants to
/// primitive types and not to `String` (it would have to be assumed), and the
/// order in which a `HashMap` is walked, which decides the order of the
/// variables in a request body, is unspecified.
/// A vector of distinct names keeps `HashMap::insert`'s meaning (a later value
/// replaces an earlier one) and gives a fixed order.
#[derive(Debug)]
pub struct VarMap {
    entries: Vec<Variable>,
}

impl View for VarMap {
    type V = Seq<Entry>;

    closed spec fn view(&self) -> Seq<Entry> {
        self.entries@.map_values(|e: Variable| e@)
    }
}

impl VarMap {
    #[verifier::type_invariant]
    spec fn names_are_distinct(self) -> bool {
        distinct_keys(self@)
    }

    /// The empty map.
    pub fn new() -> (m: VarMap)
        ensures
            m@ == Seq::<Entry>::empty(),
    {
        let m = VarMap { entries: Vec::new() };
        assert(m@ =~= Seq::<Entry>::empty());
        m
    }

    /// The number of variables.
    pub fn len(&self) -> (n: usize)
        ensures
            n == self@.len(),
    {
        self.entries.len()
    }

    /// Whether there is no variable.
    pub fn is_empty(&self) -> (b: bool)
        ensures
            b == (self@.len() == 0),
    {
        self.entries.len() == 0
    }

    /// The `i`-th variable, in insertion order.
    pub fn get(&self, i: usize) -> (e: &Variable)
        requires
            i < self@.len(),
        ensures
            e@ == self@[i as int],
    {
        &self.entries[i]
    }

    /// Assigns `value` to `key`, as `HashMap::insert` does: a name keeps its
    /// place and gets the new value, and a new name is added at the end.
    pub fn insert(&mut self, key: String, value: String)
        ensures
            final(self)@ == insert_entry(old(self)@, key@, value@),
            distinct_keys(final(self)@),
    {
        proof {
            use_type_invariant(&*self);
        }
        let ghost es = self@;
        let mut entries: Vec<Variable> = Vec::new();
        std::mem::swap(&mut entries, &mut self.entries);
        assert(entries@.map_values(|e: Variable| e@) == es);
        let n = entries.len();
        let mut i: usize = 0;
        let mut found = false;
        while i < n && !found
            invariant
                i <= n,
                n == entries@.len(),
                es == entries@.map_values(|e: Variable| e@),
                distinct_keys(es),
                found ==> i < n && es[i as int].0 == key@,
                forall|j: int| 0 <= j < i ==> es[j].0 != key@,
            decreases n - i + (if found { 0int } else { 1int }),
        {
            assert(es[i as int] == entries@[i as int]@);
            if entries[i].key == key {
                found = true;
            } else {
                i = i + 1;
            }
        }
        if found {
            proof {
                assert(has_key(es, key@));
                let k = key_index(es, key@);
                if k != i {
                    assert(es[k].0 == es[i as int].0);
                }
            }
            entries.set(i, Variable { key, value });
        } else {
            assert(!has_key(es, key@));
            entries.push(Variable { key, value });
        }
        assert(entries@.map_values(|e: Variable| e@) =~= insert_entry(es, key@, value@));
        self.entries = entries;
    }
}

/// `KEY=VALUE` split at its first `=`, as `split_once('=')` does.
pub open spec fn split_assignment(item: Seq<char>) -> Option<Entry> {
    if item.contains('=') {
        let i = first_index(item, '=');
        Some((item.take(i), item.skip(i + 1)))
    } else {
        None
    }
}

/// Reading `KEY=VALUE` items in order: the first item without `=` is the error;
/// otherwise each item assigns its value to its name, a later item replacing
/// the value of an earlier one with the same name.
pub open spec fn parse_variables_spec(items: Seq<Seq<char>>) -> Result<Seq<Entry>, Seq<char>>
    decreases items.len(),
{
    if items.len() == 0 {
        Ok(Seq::empty())
    } else {
        match parse_variables_spec(items.drop_last()) {
            Err(bad) => Err(bad),
            Ok(es) => match split_assignment(items.last()) {
                None => Err(items.last()),
                Some(kv) => Ok(insert_entry(es, kv.0, kv.1)),
            },
        }
    }
}

/// Splits `KEY=VALUE` at the first `=`.
pub fn split_assignment_exec(item: &str) -> (r: Option<(String, String)>)
    ensures
        match r {
            Some(kv) => split_assignment(item@) == Some((kv.0@, kv.1@)),
            None => split_assignment(item@) is None,
        },
{
    let n = item.unicode_len();
    match find_first(item, '=') {
        Some(i) => {
            assert(i < n);
            proof {
                lemma_first_index(item@, '=', i as int);
                assert(item@[i as int] == '=');
                assert(item@.contains('='));
            }
            let key = head_until(item, i);
            let value = tail_from(item, i + 1);
            assert(key@ =~= item@.take(i as int));
            assert(value@ =~= item@.skip(i + 1));
            Some((key, value))
        },
        None => None,
    }
}

/// Reads the `KEY=VALUE` items of `--env` or `--input`.
pub fn parse_variables(items: &Vec<String>) -> (r: Result<VarMap, CliError>)
    ensures
        match (r, parse_variables_spec(crate::text::views(items@))) {
            (Ok(m), Ok(es)) => m@ == es && distinct_keys(es),
            (Err(CliError::InvalidVariable { item }), Err(bad)) => item@ == bad,
            _ => false,
        },
{
    let ghost all = crate::text::views(items@);
    let mut vars = VarMap::new();
    let mut i: usize = 0;
    while i < items.len()
        invariant
            i <= items.len(),
            all == crate::text::views(items@),
            parse_variables_spec(all.take(i as int)) == Ok::<Seq<Entry>, Seq<char>>(vars@),
            distinct_keys(vars@),
        decreases items.len() - i,
    {
        let ghost prefix = all.take(i + 1);
        assert(prefix.drop_last() =~= all.take(i as int));
        assert(prefix.last() == items@[i as int]@);
        match split_assignment_exec(items[i].as_str()) {
            Some(kv) => {
                let (key, value) = kv;
                vars.insert(key, value);
            },
            None => {
                proof {
                    lemma_parse_error_persists(all, i as int + 1);
                }
                return Err(CliError::InvalidVariable { item: items[i].clone() });
            },
        }
        i = i + 1;
    }
    assert(all.take(items.len() as int) =~= all);
    Ok(vars)
}

/// Once a prefix of the items fails, so does every longer prefix, with the same item.
proof fn lemma_parse_error_persists(items: Seq<Seq<char>>, k: int)
    requires
        0 <= k <= items.len(),
        parse_variables_spec(items.take(k)) is Err,
    ensures
        parse_variables_spec(items) == parse_variables_spec(items.take(k)),
    decreases items.len() - k,
{
    if k < items.len() {
        assert(items.take(k + 1).drop_last() =~= items.take(k));
        lemma_parse_error_persists(items, k + 1);
    } else {
        assert(items.take(k) =~= items);
    }
}

/// Assigning `v` to `k` makes `k` read `v` and keeps the names distinct.
pub proof fn lemma_insert_lookup(es: Seq<Entry>, k: Seq<char>, v: Seq<char>)
    requires
        distinct_keys(es),
    ensures
        lookup(insert_entry(es, k, v), k) == Some(v),
        distinct_keys(insert_entry(es, k, v)),
{
    let es2 = insert_entry(es, k, v);
    if has_key(es, k) {
        let i = key_index(es, k);
        assert(es2[i].0 == k);
        assert(has_key(es2, k));
        let j = key_index(es2, k);
        if j != i {
            assert(es2[j] == es[j]);
            assert(es[j].0 == es[i].0);
        }
    } else {
        let i = es.len() as int;
        assert(es2[i].0 == k);
        assert(has_key(es2, k));
        let j = key_index(es2, k);
        if j != i {
            assert(es2[j] == es[j]);
        }
    }
}

/// Assigning a value to `k` leaves every other name reading what it read before.
pub proof fn lemma_insert_keeps_others(es: Seq<Entry>, k: Seq<char>, v: Seq<char>, other: Seq<char>)
    requires
        distinct_keys(es),
        other != k,
    ensures
        lookup(insert_entry(es, k, v), other) == lookup(es, other),
{
    let es2 = insert_entry(es, k, v);
    lemma_insert_lookup(es, k, v);
    if has_key(es, other) {
        let i = key_index(es, other);
        assert(es2[i] == es[i]);
        assert(has_key(es2, other));
        let j = key_index(es2, other);
        if j != i {
            assert(es2[j].0 == es2[i].0);
        }
    }
    if has_key(es2, other) {
        let j = key_index(es2, other);
        assert(es2[j].0 != k);
        assert(es[j] == es2[j]);
        assert(has_key(es, other));
    }
}

/// The last `KEY=VALUE` item that names a key gives its value: when every item
/// is well formed and no item after the `i`-th names `k`, the parsed map reads
/// the `i`-th value for `k`.
pub proof fn lemma_last_assignment_wins(items: Seq<Seq<char>>, i: int, k: Seq<char>, v: Seq<char>)
    requires
        parse_variables_spec(items) is Ok,
        0 <= i < items.len(),
        split_assignment(items[i]) == Some((k, v)),
        forall|j: int| i < j < items.len() ==> (#[trigger] split_assignment(items[j])).unwrap().0 != k,
    ensures
        lookup(parse_variables_spec(items)->Ok_0, k) == Some(v),
        distinct_keys(parse_variables_spec(items)->Ok_0),
    decreases items.len(),
{
    let init = items.drop_last();
    let last = items.last();
    assert(parse_variables_spec(init) is Ok);
    let es = parse_variables_spec(init)->Ok_0;
    lemma_parse_distinct(init);
    let kv = split_assignment(last).unwrap();
    if i == items.len() - 1 {
        lemma_insert_lookup(es, k, v);
    } else {
        assert(init[i] == items[i]);
        assert forall|j: int| i < j < init.len() implies (#[trigger] split_assignment(init[j])).unwrap().0 != k by {
            assert(init[j] == items[j]);
        }
        lemma_last_assignment_wins(init, i, k, v);
        assert(split_assignment(items[items.len() - 1]).unwrap().0 != k);
        lemma_insert_keeps_others(es, kv.0, kv.1, k);
        lemma_insert_lookup(es, kv.0, kv.1);
    }
}

/// Parsed variables have distinct names.
pub proof fn lemma_parse_distinct(items: Seq<Seq<char>>)
    requires
        parse_variables_spec(items) is Ok,
    ensures
        distinct_keys(parse_variables_spec(items)->Ok_0),
    decreases items.len(),
{
    if items.len() > 0 {
        lemma_parse_distinct(items.drop_last());
        let es = parse_variables_spec(items.drop_last())->Ok_0;
        let kv = split_assignment(items.last()).unwrap();
        lemma_insert_lookup(es, kv.0, kv.1);
    }
}

/// The name that a well-formed `KEY=VALUE` item assigns: its text before the first `=`.
pub open spec fn assigned_key(item: Seq<char>) -> Seq<char> {
    split_assignment(item).unwrap().0
}

/// After an assignment, the names present are those present before and the
/// assigned name.
proof fn lemma_insert_keys(es: Seq<Entry>, k: Seq<char>, v: Seq<char>, x: Seq<char>)
    ensures
        has_key(insert_entry(es, k, v), x) <==> (has_key(es, x) || x == k),
{
    let es2 = insert_entry(es, k, v);
    if has_key(es, k) {
        let i = key_index(es, k);
        if has_key(es, x) {
            let j = choose|j: int| 0 <= j < es.len() && #[trigger] es[j].0 == x;
            if j == i {
                assert(es2[i].0 == k);
            } else {
                assert(es2[j] == es[j]);
            }
        }
        if x == k {
            assert(es2[i].0 == k);
        }
        if has_key(es2, x) {
            let j = choose|j: int| 0 <= j < es2.len() && #[trigger] es2[j].0 == x;
            if j != i {
                assert(es2[j] == es[j]);
            }
        }
    } else {
        let n = es.len() as int;
        if has_key(es, x) {
            let j = choose|j: int| 0 <= j < es.len() && #[trigger] es[j].0 == x;
            assert(es2[j] == es[j]);
        }
        if x == k {
            assert(es2[n].0 == k);
        }
        if has_key(es2, x) {
            let j = choose|j: int| 0 <= j < es2.len() && #[trigger] es2[j].0 == x;
            if j < n {
                assert(es2[j] == es[j]);
            }
        }
    }
}

/// Reading `KEY=VALUE` items succeeds exactly when every item contains `=`;
/// then the names of the result are exactly the texts before the first `=` of
/// the items.
pub proof fn lemma_parse_variables_keys(items: Seq<Seq<char>>)
    ensures
        parse_variables_spec(items) is Ok <==> forall|i: int|
            0 <= i < items.len() ==> (#[trigger] items[i]).contains('='),
        parse_variables_spec(items) is Ok ==> forall|k: Seq<char>|
            has_key(parse_variables_spec(items)->Ok_0, k) <==> exists|i: int|
                0 <= i < items.len() && assigned_key(#[trigger] items[i]) == k,
    decreases items.len(),
{
    if items.len() > 0 {
        let init = items.drop_last();
        let last = items.last();
        lemma_parse_variables_keys(init);
        assert forall|i: int| 0 <= i < init.len() implies init[i] == items[i] by {}
        assert(items[items.len() - 1] == last);
        if parse_variables_spec(items) is Ok {
            let es = parse_variables_spec(init)->Ok_0;
            let kv = split_assignment(last).unwrap();
            assert forall|k: Seq<char>|
                has_key(parse_variables_spec(items)->Ok_0, k) <==> exists|i: int|
                    0 <= i < items.len() && assigned_key(#[trigger] items[i]) == k by {
                lemma_insert_keys(es, kv.0, kv.1, k);
                if has_key(es, k) {
                    let i = choose|i: int| 0 <= i < init.len() && assigned_key(#[trigger] init[i]) == k;
                    assert(assigned_key(items[i]) == k);
                }
                if k == kv.0 {
                    assert(assigned_key(items[items.len() - 1]) == k);
                }
                if exists|i: int| 0 <= i < items.len() && assigned_key(#[trigger] items[i]) == k {
                    let i = choose|i: int| 0 <= i < items.len() && assigned_key(#[trigger] items[i]) == k;
                    if i < init.len() {
                        assert(assigned_key(init[i]) == k);
                    }
                }
            }
        }
        if forall|i: int| 0 <= i < items.len() ==> (#[trigger] items[i]).contains('=') {
            assert forall|i: int| 0 <= i < init.len() implies (#[trigger] init[i]).contains('=') by {
                assert(items[i].contains('='));
            }
            assert(last.contains('='));
        }
        if parse_variables_spec(items) is Ok {
            assert forall|i: int| 0 <= i < items.len() implies (#[trigger] items[i]).contains('=') by {
                if i < init.len() {
                    assert(init[i].contains('='));
                }
            }
        }
    }
}

/// `KEY=VALUE` is split at its first `=`: a name without `=` followed by `=` and
/// any value (which may itself hold `=`) gives back that name and that value;
/// an item without `=` is malformed.
pub proof fn lemma_split_at_first_equals(k: Seq<char>, v: Seq<char>)
    requires
        !k.contains('='),
    ensures
        split_assignment(k + seq!['='] + v) == Some((k, v)),
        split_assignment(k) is None,
{
    let item = k + seq!['='] + v;
    let n = k.len() as int;
    assert(item[n] == '=');
    assert forall|j: int| 0 <= j < n implies item[j] != '=' by {
        assert(item[j] == k[j]);
    }
    assert(is_first_index(item, '=', n));
    lemma_first_index(item, '=', n);
    assert(item.contains('='));
    assert(item.take(n) =~= k);
    assert(item.skip(n + 1) =~= v);
}

} // verus!
