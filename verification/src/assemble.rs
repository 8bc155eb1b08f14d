//! The package assembler: from the rules in the order in which they were
//! found to a package with its header.

use crate::model::{
    rule_views, texts, RulesPackage, RulesPackageHeader, RulesPackageHeaderView, RulesPackageView,
    SerializedRule, SerializedRuleView,
};
use vstd::prelude::*;

verus! {

/// The revision of the package format that this library writes.
pub const FORMAT_VERSION: u32 = 1;

/// The categories of `rules`, each once, in the order in which they are
/// first seen.
pub open spec fn categories_of(rules: Seq<SerializedRuleView>) -> Seq<Seq<char>>
    decreases rules.len(),
{
    if rules.len() == 0 {
        Seq::empty()
    } else {
        let earlier = categories_of(rules.drop_last());
        let category = rules.last().metadata.category;
        if earlier.contains(category) {
            earlier
        } else {
            earlier.push(category)
        }
    }
}

/// The package that is assembled from `rules` at the time `created_at`.
pub open spec fn assembled(
    rules: Seq<SerializedRuleView>,
    compression: Seq<char>,
    created_at: u64,
) -> RulesPackageView {
    RulesPackageView {
        header: RulesPackageHeaderView {
            version: FORMAT_VERSION,
            created_at,
            rule_count: rules.len() as usize,
            compression,
            categories: categories_of(rules),
        },
        rules,
    }
}

/// A package whose header agrees with its rules: it counts them, and lists
/// their categories once each in first-seen order.
pub open spec fn consistent(p: RulesPackageView) -> bool {
    &&& p.header.rule_count == p.rules.len()
    &&& p.header.categories == categories_of(p.rules)
}

/// No category is listed twice.
pub proof fn lemma_categories_distinct(rules: Seq<SerializedRuleView>)
    ensures
        categories_of(rules).no_duplicates(),
    decreases rules.len(),
{
    if rules.len() > 0 {
        lemma_categories_distinct(rules.drop_last());
    }
}

/// The categories listed are exactly those of the rules.
pub proof fn lemma_categories_complete(rules: Seq<SerializedRuleView>)
    ensures
        forall|i: int|
            0 <= i < rules.len() ==> categories_of(rules).contains(
                #[trigger] rules[i].metadata.category,
            ),
        forall|k: int|
            0 <= k < categories_of(rules).len() ==> exists|i: int|
                0 <= i < rules.len() && rules[i].metadata.category == #[trigger] categories_of(
                    rules,
                )[k],
    decreases rules.len(),
{
    if rules.len() > 0 {
        let front = rules.drop_last();
        let earlier = categories_of(front);
        let all = categories_of(rules);
        lemma_categories_complete(front);
        assert forall|i: int| 0 <= i < rules.len() implies all.contains(
            #[trigger] rules[i].metadata.category,
        ) by {
            if i < rules.len() - 1 {
                assert(front[i] == rules[i]);
                let k = choose|k: int|
                    0 <= k < earlier.len() && earlier[k] == front[i].metadata.category;
                assert(all[k] == rules[i].metadata.category);
            } else {
                if earlier.contains(rules.last().metadata.category) {
                } else {
                    assert(all[all.len() - 1] == rules[i].metadata.category);
                }
            }
        }
        assert forall|k: int| 0 <= k < all.len() implies exists|i: int|
            0 <= i < rules.len() && rules[i].metadata.category == #[trigger] all[k] by {
            if k < earlier.len() {
                assert(all[k] == earlier[k]);
                let i = choose|i: int|
                    0 <= i < front.len() && front[i].metadata.category == earlier[k];
                assert(rules[i] == front[i]);
            } else {
                assert(rules[rules.len() - 1].metadata.category == all[k]);
            }
        }
    }
}

/// A category that is seen first before another is listed before it: where
/// more rules follow, the categories listed so far stay at the front.
pub proof fn lemma_categories_first_seen(rules: Seq<SerializedRuleView>, n: int)
    requires
        0 <= n <= rules.len(),
    ensures
        categories_of(rules.take(n)).len() <= categories_of(rules).len(),
        categories_of(rules.take(n)) == categories_of(rules).take(
            categories_of(rules.take(n)).len() as int,
        ),
    decreases rules.len() - n,
{
    if n == rules.len() {
        assert(rules.take(n) =~= rules);
        assert(categories_of(rules).take(categories_of(rules).len() as int) =~= categories_of(
            rules,
        ));
    } else {
        let front = rules.drop_last();
        assert(front.take(n) =~= rules.take(n));
        lemma_categories_first_seen(front, n);
        let shorter = categories_of(front);
        let known = categories_of(rules.take(n));
        assert(categories_of(rules).take(known.len() as int) =~= shorter.take(known.len() as int));
    }
}

fn contains_text(list: &Vec<String>, wanted: &String) -> (r: bool)
    ensures
        r == texts(list@).contains(wanted@),
{
    let mut i: usize = 0;
    while i < list.len()
        invariant
            i <= list.len(),
            forall|j: int| 0 <= j < i ==> texts(list@)[j] != wanted@,
        decreases list.len() - i,
    {
        if list[i] == *wanted {
            assert(texts(list@)[i as int] == wanted@);
            return true;
        }
        i += 1;
    }
    false
}

/// Assembles a package from the rules, in their order, for the compression
/// that it is going to be stored with and the time of assembly in seconds.
/// No rule is dropped or merged, whatever its `id`.
pub fn assemble(rules: Vec<SerializedRule>, compression: &str, created_at: u64) -> (package:
    RulesPackage)
    ensures
        package@ == assembled(rule_views(rules@), compression@, created_at),
        package.rules@ == rules@,
        consistent(package@),
{
    let mut categories: Vec<String> = Vec::new();
    let mut i: usize = 0;
    assert(rule_views(rules@).take(0) =~= Seq::<SerializedRuleView>::empty());
    assert(texts(categories@) =~= Seq::<Seq<char>>::empty());
    while i < rules.len()
        invariant
            i <= rules.len(),
            texts(categories@) == categories_of(rule_views(rules@).take(i as int)),
        decreases rules.len() - i,
    {
        let ghost before = categories@;
        let ghost done = rule_views(rules@).take(i as int + 1);
        proof {
            assert(done.drop_last() =~= rule_views(rules@).take(i as int));
            assert(done.last() == rules@[i as int]@);
        }
        if !contains_text(&categories, &rules[i].metadata.category) {
            categories.push(rules[i].metadata.category.clone());
            assert(texts(categories@) =~= texts(before).push(rules@[i as int]@.metadata.category));
        }
        i += 1;
    }
    assert(rule_views(rules@).take(i as int) =~= rule_views(rules@));
    let header = RulesPackageHeader {
        version: FORMAT_VERSION,
        created_at,
        rule_count: rules.len(),
        compression: compression.to_owned(),
        categories,
    };
    RulesPackage { header, rules }
}

} // verus!
