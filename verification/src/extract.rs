//! The subdomain extractor: from the raw records of the log source to the
//! set of distinct, validated, lower-case host names.

use crate::backends::crtsh::{name_values, CrtshResponse};
use crate::domains::DomainSet;
use crate::text::{
    contains_char, has_wildcard_prefix, lemma_single_line, line_feed, lines_of, slice_views,
    split_lines, starts_with_wildcard, string_views,
};
use crate::utils::{domain_syntax_ok, valid_domain};
use vstd::hash_set::StringHashSet;
use vstd::prelude::*;

verus! {

/// The lower-case form of a text, as `str::to_lowercase` gives it. The
/// Unicode tables behind it are not restated here; this only gives the
/// result a name.
pub uninterp spec fn lowercased(text: Seq<char>) -> Seq<char>;

/// `str::to_lowercase` returns the lower-case equivalent of a string slice
/// as a new `String`. The mapping is fixed by Unicode and does not depend on
/// a locale, so the result is a function of the text alone: `lowercased`.
pub assume_specification[ str::to_lowercase ](text: &str) -> (lower: String)
    ensures
        lower@ == lowercased(text@),
;

/// The candidate names of one name-value field: its lines. An empty field
/// has no candidate.
pub open spec fn candidates(field: Seq<char>) -> Seq<Seq<char>> {
    if field.len() == 0 {
        Seq::<Seq<char>>::empty()
    } else {
        lines_of(field)
    }
}

/// A candidate that is neither an e-mail address nor a wildcard entry.
pub open spec fn plain_name(candidate: Seq<char>) -> bool {
    !candidate.contains('@') && !has_wildcard_prefix(candidate)
}

/// The three filters that a candidate has to pass: no `@` in it, no `*.` in
/// front of it, and a syntax that the validator lets through.
pub open spec fn accepted(candidate: Seq<char>) -> bool {
    plain_name(candidate) && domain_syntax_ok(candidate)
}

/// The names that a list of candidates contributes: the lower-case form of
/// each accepted one.
pub open spec fn names_among(list: Seq<Seq<char>>) -> Set<Seq<char>> {
    Set::new(
        |name: Seq<char>|
            exists|j: int|
                0 <= j < list.len() && accepted(#[trigger] list[j]) && name == lowercased(list[j]),
    )
}

/// The candidates of a list that fail a filter, in order.
pub open spec fn rejected_among(list: Seq<Seq<char>>) -> Seq<Seq<char>> {
    list.filter(|candidate: Seq<char>| !accepted(candidate))
}

/// The result set for a list of name-value fields: every name that some
/// field contributes.
pub open spec fn extracted(fields: Seq<Seq<char>>) -> Set<Seq<char>> {
    Set::new(
        |name: Seq<char>|
            exists|i: int|
                0 <= i < fields.len() && names_among(candidates(#[trigger] fields[i])).contains(
                    name,
                ),
    )
}

/// The rejected candidates for a list of name-value fields, field by field.
/// A field that has occurred before is passed over, so its candidates are
/// reported once.
pub open spec fn rejected_from(fields: Seq<Seq<char>>) -> Seq<Seq<char>>
    decreases fields.len(),
{
    if fields.len() == 0 {
        Seq::<Seq<char>>::empty()
    } else if fields.drop_last().contains(fields.last()) {
        rejected_from(fields.drop_last())
    } else {
        rejected_from(fields.drop_last()) + rejected_among(candidates(fields.last()))
    }
}

/// One more candidate adds its lower-case form if it is accepted, and
/// nothing otherwise.
pub proof fn lemma_names_among_push(list: Seq<Seq<char>>, candidate: Seq<char>)
    ensures
        names_among(list.push(candidate)) == if accepted(candidate) {
            names_among(list).insert(lowercased(candidate))
        } else {
            names_among(list)
        },
{
    let grown = list.push(candidate);
    let target = if accepted(candidate) {
        names_among(list).insert(lowercased(candidate))
    } else {
        names_among(list)
    };
    assert forall|name: Seq<char>| names_among(grown).contains(name) implies target.contains(
        name,
    ) by {
        let j = choose|j: int|
            0 <= j < grown.len() && accepted(#[trigger] grown[j]) && name == lowercased(grown[j]);
        if j < list.len() {
            assert(grown[j] == list[j]);
        }
    }
    assert forall|name: Seq<char>| target.contains(name) implies names_among(grown).contains(
        name,
    ) by {
        if names_among(list).contains(name) {
            let j = choose|j: int|
                0 <= j < list.len() && accepted(#[trigger] list[j]) && name == lowercased(list[j]);
            assert(grown[j] == list[j]);
        } else {
            assert(grown[list.len() as int] == candidate);
        }
    }
    assert(names_among(grown) =~= target);
}

/// One more candidate is put at the end of the rejected ones if it fails a
/// filter, and is left out otherwise.
pub proof fn lemma_rejected_among_push(list: Seq<Seq<char>>, candidate: Seq<char>)
    ensures
        rejected_among(list.push(candidate)) == if accepted(candidate) {
            rejected_among(list)
        } else {
            rejected_among(list).push(candidate)
        },
{
    reveal(Seq::filter);
    assert(list.push(candidate).drop_last() == list);
}

/// One more field adds the names that it contributes.
pub proof fn lemma_extracted_push(fields: Seq<Seq<char>>, field: Seq<char>)
    ensures
        extracted(fields.push(field)) == extracted(fields).union(names_among(candidates(field))),
{
    let grown = fields.push(field);
    let target = extracted(fields).union(names_among(candidates(field)));
    assert forall|name: Seq<char>| extracted(grown).contains(name) implies target.contains(
        name,
    ) by {
        let i = choose|i: int|
            0 <= i < grown.len() && names_among(candidates(#[trigger] grown[i])).contains(name);
        if i < fields.len() {
            assert(grown[i] == fields[i]);
        }
    }
    assert forall|name: Seq<char>| target.contains(name) implies extracted(grown).contains(
        name,
    ) by {
        if extracted(fields).contains(name) {
            let i = choose|i: int|
                0 <= i < fields.len() && names_among(candidates(#[trigger] fields[i])).contains(
                    name,
                );
            assert(grown[i] == fields[i]);
        } else {
            assert(grown[fields.len() as int] == field);
        }
    }
    assert(extracted(grown) =~= target);
}

/// A field that has occurred before adds nothing.
pub proof fn lemma_extracted_repeat(fields: Seq<Seq<char>>, field: Seq<char>)
    requires
        fields.contains(field),
    ensures
        extracted(fields.push(field)) == extracted(fields),
{
    lemma_extracted_push(fields, field);
    let k = choose|k: int| 0 <= k < fields.len() && fields[k] == field;
    assert forall|name: Seq<char>| names_among(candidates(field)).contains(name) implies extracted(
        fields,
    ).contains(name) by {
        assert(names_among(candidates(fields[k])).contains(name));
    }
    assert(extracted(fields).union(names_among(candidates(field))) =~= extracted(fields));
}

/// Every member of the result set is the lower-case form of a line of some
/// field, and that line holds no `@`, does not begin with `*.` and passed
/// the syntax validation.
pub proof fn lemma_member_origin(fields: Seq<Seq<char>>, name: Seq<char>)
    requires
        extracted(fields).contains(name),
    ensures
        exists|i: int, j: int|
            {
                &&& 0 <= i < fields.len()
                &&& 0 <= j < candidates(fields[i]).len()
                &&& name == lowercased(#[trigger] candidates(fields[i])[j])
                &&& !candidates(fields[i])[j].contains('@')
                &&& !has_wildcard_prefix(candidates(fields[i])[j])
                &&& domain_syntax_ok(candidates(fields[i])[j])
            },
{
    let i = choose|i: int|
        0 <= i < fields.len() && names_among(candidates(#[trigger] fields[i])).contains(name);
    let list = candidates(fields[i]);
    let j = choose|j: int|
        0 <= j < list.len() && accepted(#[trigger] list[j]) && name == lowercased(list[j]);
}

/// A field none of whose lines is a plain name contributes nothing: a
/// wildcard entry or an e-mail address is dropped whole, and no other name
/// is made of it.
pub proof fn lemma_nothing_from_marked_lines(field: Seq<char>)
    requires
        forall|j: int|
            0 <= j < candidates(field).len() ==> !plain_name(#[trigger] candidates(field)[j]),
    ensures
        names_among(candidates(field)) == Set::<Seq<char>>::empty(),
{
}

/// No records, no names.
pub proof fn lemma_extracted_of_nothing()
    ensures
        extracted(Seq::<Seq<char>>::empty()) == Set::<Seq<char>>::empty(),
        rejected_from(Seq::<Seq<char>>::empty()) == Seq::<Seq<char>>::empty(),
{
}

/// The lower-case forms of the fields that are not empty.
pub open spec fn lower_case_forms(fields: Seq<Seq<char>>) -> Set<Seq<char>> {
    Set::new(
        |name: Seq<char>|
            exists|i: int|
                0 <= i < fields.len() && (#[trigger] fields[i]).len() > 0 && name == lowercased(
                    fields[i],
                ),
    )
}

/// Where every field holds one name, and that name passes all three
/// filters, nothing is taken away and nothing is added: the result set is
/// the set of the fields' lower-case forms. An empty field has no candidate,
/// so it alone contributes nothing; where no field is empty, the result set
/// is the lower-case form of every field.
pub proof fn lemma_extracted_of_clean_fields(fields: Seq<Seq<char>>)
    requires
        forall|i: int|
            0 <= i < fields.len() ==> !(#[trigger] fields[i]).contains(line_feed()) && accepted(
                fields[i],
            ),
    ensures
        extracted(fields) == lower_case_forms(fields),
        (forall|i: int| 0 <= i < fields.len() ==> (#[trigger] fields[i]).len() > 0) ==> extracted(
            fields,
        ) == fields.map_values(|field: Seq<char>| lowercased(field)).to_set(),
{
    assert forall|name: Seq<char>| extracted(fields).contains(name) implies lower_case_forms(
        fields,
    ).contains(name) by {
        let i = choose|i: int|
            0 <= i < fields.len() && names_among(candidates(#[trigger] fields[i])).contains(name);
        lemma_single_line(fields[i]);
        let list = candidates(fields[i]);
        let j = choose|j: int|
            0 <= j < list.len() && accepted(#[trigger] list[j]) && name == lowercased(list[j]);
        assert(list[j] == fields[i]);
    }
    assert forall|name: Seq<char>| lower_case_forms(fields).contains(name) implies extracted(
        fields,
    ).contains(name) by {
        let i = choose|i: int|
            0 <= i < fields.len() && (#[trigger] fields[i]).len() > 0 && name == lowercased(
                fields[i],
            );
        lemma_single_line(fields[i]);
        let list = candidates(fields[i]);
        assert(list[0] == fields[i]);
        assert(names_among(list).contains(name));
    }
    assert(extracted(fields) =~= lower_case_forms(fields));
    if forall|i: int| 0 <= i < fields.len() ==> (#[trigger] fields[i]).len() > 0 {
        let lowered = fields.map_values(|field: Seq<char>| lowercased(field));
        assert forall|name: Seq<char>| lower_case_forms(fields).contains(name) implies lowered.to_set().contains(
            name,
        ) by {
            let i = choose|i: int|
                0 <= i < fields.len() && (#[trigger] fields[i]).len() > 0 && name == lowercased(
                    fields[i],
                );
            assert(lowered[i] == name);
        }
        assert forall|name: Seq<char>| lowered.to_set().contains(name) implies lower_case_forms(
            fields,
        ).contains(name) by {
            let i = choose|i: int| 0 <= i < lowered.len() && lowered[i] == name;
            assert(fields[i].len() > 0);
        }
        assert(lower_case_forms(fields) =~= lowered.to_set());
    }
}

/// The result set depends on which fields occur, not on their order or on
/// how often one occurs. In particular, extracting twice from the same
/// records gives the same set.
pub proof fn lemma_extracted_depends_on_field_set(first: Seq<Seq<char>>, second: Seq<Seq<char>>)
    requires
        first.to_set() == second.to_set(),
    ensures
        extracted(first) == extracted(second),
{
    lemma_extracted_covers(first, second);
    lemma_extracted_covers(second, first);
}

/// Fields that all occur in another list contribute nothing that the other
/// list does not.
proof fn lemma_extracted_covers(fields: Seq<Seq<char>>, others: Seq<Seq<char>>)
    requires
        fields.to_set().subset_of(others.to_set()),
    ensures
        extracted(fields).subset_of(extracted(others)),
{
    assert forall|name: Seq<char>| extracted(fields).contains(name) implies extracted(
        others,
    ).contains(name) by {
        let i = choose|i: int|
            0 <= i < fields.len() && names_among(candidates(#[trigger] fields[i])).contains(name);
        assert(fields.to_set().contains(fields[i]));
        let k = choose|k: int| 0 <= k < others.len() && others[k] == fields[i];
        assert(names_among(candidates(others[k])).contains(name));
    }
}

/// Whether the candidate is neither an e-mail address nor a wildcard entry.
pub fn is_plain_name(candidate: &str) -> (plain: bool)
    ensures
        plain == plain_name(candidate@),
{
    !contains_char(candidate, '@') && !starts_with_wildcard(candidate)
}

/// Whether the candidate passes all three filters. The validator is asked
/// only about candidates that are plain names.
pub fn accepts(candidate: &str) -> (ok: bool)
    ensures
        ok == accepted(candidate@),
{
    is_plain_name(candidate) && valid_domain(candidate)
}

/// Cuts a name-value field into its candidate names.
pub fn split_candidates<'a>(field: &'a str) -> (parts: Vec<&'a str>)
    ensures
        slice_views(parts@) == candidates(field@),
{
    if field.is_empty() {
        Vec::new()
    } else {
        split_lines(field)
    }
}

/// Sorts the candidates of one field: the lower-case form of each accepted
/// one goes into `domains`, each rejected one is put at the end of
/// `rejected` as it stands.
pub fn sift_field(field: &str, domains: &mut DomainSet, rejected: &mut Vec<String>)
    ensures
        final(domains)@ == old(domains)@.union(names_among(candidates(field@))),
        string_views(final(rejected)@) == string_views(old(rejected)@) + rejected_among(
            candidates(field@),
        ),
{
    let parts = split_candidates(field);
    let ghost list = slice_views(parts@);
    assert(rejected_among(list.take(0)) =~= Seq::<Seq<char>>::empty()) by {
        reveal(Seq::filter);
    }
    for i in 0..parts.len()
        invariant
            list == slice_views(parts@),
            domains@ == old(domains)@.union(names_among(list.take(i as int))),
            string_views(rejected@) == string_views(old(rejected)@) + rejected_among(
                list.take(i as int),
            ),
    {
        let candidate: &str = parts[i];
        let ghost seen = list.take(i as int);
        let ghost rejected_before = string_views(rejected@);
        proof {
            assert(list.take(i + 1) =~= seen.push(candidate@));
            lemma_names_among_push(seen, candidate@);
            lemma_rejected_among_push(seen, candidate@);
        }
        if accepts(candidate) {
            domains.insert(candidate.to_lowercase());
        } else {
            rejected.push(candidate.to_owned());
            assert(string_views(rejected@) =~= rejected_before.push(candidate@));
        }
    }
    assert(list.take(parts.len() as int) =~= list);
}

/// What extraction gives: the result set, and beside it the candidates that
/// were turned away, for whoever wants to log them.
pub struct Extraction {
    pub domains: DomainSet,
    pub rejected: Vec<String>,
}

/// Extracts the host names from the records of the log source.
///
/// Each distinct name-value field is cut into its lines; a line is kept if
/// it holds no `@`, does not begin with `*.` and passes `valid_domain`; what
/// is kept enters the result set in lower case. Input that fails a filter is
/// left out, never an error, and no input makes the extraction fail.
pub fn extract(records: &Vec<CrtshResponse>) -> (out: Extraction)
    ensures
        out.domains@ == extracted(name_values(records@)),
        string_views(out.rejected@) == rejected_from(name_values(records@)),
{
    let ghost fields = name_values(records@);
    let mut seen = StringHashSet::with_capacity(records.len());
    let mut domains = DomainSet::with_capacity(records.len());
    let mut rejected: Vec<String> = Vec::new();
    for i in 0..records.len()
        invariant
            fields == name_values(records@),
            seen@ == fields.take(i as int).to_set(),
            domains@ == extracted(fields.take(i as int)),
            string_views(rejected@) == rejected_from(fields.take(i as int)),
    {
        let field: &str = records[i].name_value.as_str();
        let ghost before = fields.take(i as int);
        proof {
            assert(fields.take(i + 1) =~= before.push(field@));
            assert(before.push(field@).drop_last() =~= before);
            before.lemma_push_to_set_commute(field@);
        }
        if seen.insert(field.to_owned()) {
            sift_field(field, &mut domains, &mut rejected);
            proof {
                lemma_extracted_push(before, field@);
            }
        } else {
            proof {
                lemma_extracted_repeat(before, field@);
            }
        }
    }
    assert(fields.take(records.len() as int) =~= fields);
    Extraction { domains, rejected }
}

} // verus!
