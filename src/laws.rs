//! Laws that relate conversions of different tables or of the same input.

use vstd::prelude::*;

use crate::convert::{
    input_outcome, language_entries, language_file, table_outcome, template_entries,
    template_file, Catalog, ConvertError,
};
use crate::po::block;
use crate::table::{csv_rows, has_identifier, QUOTE_ESCAPE, header_width, language_count, row_fits, well_formed};

verus! {

proof fn lemma_entries_prefix(t: Seq<Seq<Seq<char>>>, u: Seq<Seq<Seq<char>>>, col: int, n: nat)
    requires
        n <= t.len(),
        n <= u.len(),
        forall|j: int| 0 <= j < n ==> t[j] == u[j],
    ensures
        template_entries(t, n) == template_entries(u, n),
        language_entries(t, col, n) == language_entries(u, col, n),
    decreases n,
{
    if n > 1 {
        lemma_entries_prefix(t, u, col, (n - 1) as nat);
    }
}

proof fn lemma_entries_skip(
    t: Seq<Seq<Seq<char>>>,
    row: Seq<Seq<char>>,
    k: int,
    col: int,
    n: nat,
)
    requires
        1 <= k <= n <= t.len(),
        !has_identifier(row),
    ensures
        template_entries(t.insert(k, row), n + 1) == template_entries(t, n),
        language_entries(t.insert(k, row), col, n + 1) == language_entries(t, col, n),
    decreases n,
{
    let u = t.insert(k, row);
    if n == k {
        lemma_entries_prefix(t, u, col, n);
        assert(u[k] == row);
        assert(template_entries(u, n + 1) =~= template_entries(u, n));
        assert(language_entries(u, col, n + 1) =~= language_entries(u, col, n));
    } else {
        lemma_entries_skip(t, row, k, col, (n - 1) as nat);
        assert(u[n as int] == t[n - 1]);
    }
}

/// Each record adds exactly one message to the template, after those of the
/// records before it, when it has an identifier, and none otherwise; it adds
/// exactly one message to the catalog of each language column where it has a
/// cell, under the same condition, and none to the others.
pub proof fn record_adds_one_message(
    t: Seq<Seq<Seq<char>>>,
    row: Seq<Seq<char>>,
    project: Seq<char>,
)
    requires
        t.len() >= 1,
    ensures
        template_file(t.push(row), project).1 == template_file(t, project).1 + if has_identifier(
            row,
        ) {
            block(row[0], Seq::empty())
        } else {
            Seq::empty()
        },
        language_count(t.push(row)) == language_count(t),
        forall|i: int|
            0 <= i < language_count(t) ==> #[trigger] language_file(t.push(row), project, i).1
                == language_file(t, project, i).1 + if has_identifier(row) && i + 1 < row.len() {
                block(row[0], row[i + 1])
            } else {
                Seq::empty()
            },
{
    let u = t.push(row);
    lemma_entries_prefix(t, u, 0, t.len());
    assert(u[t.len() as int] == row);
    assert(u[0] == t[0]);
    assert forall|i: int| 0 <= i < language_count(t) implies #[trigger] language_file(
        u,
        project,
        i,
    ).1 == language_file(t, project, i).1 + if has_identifier(row) && i + 1 < row.len() {
        block(row[0], row[i + 1])
    } else {
        Seq::empty()
    } by {
        lemma_entries_prefix(t, u, i + 1, t.len());
    }
}

/// A record without an identifier is skipped entirely: inserting one anywhere
/// after the header leaves the conversion succeeding or failing as before, and
/// where it succeeds, every file as it was.
pub proof fn record_without_identifier_is_skipped(
    t: Seq<Seq<Seq<char>>>,
    row: Seq<Seq<char>>,
    k: int,
    project: Seq<char>,
    before: Result<Catalog, ConvertError>,
    after: Result<Catalog, ConvertError>,
)
    requires
        1 <= k <= t.len(),
        !has_identifier(row),
        table_outcome(t, project, before),
        table_outcome(t.insert(k, row), project, after),
    ensures
        before is Ok <==> after is Ok,
        before is Ok ==> {
            &&& before->Ok_0.template@ == after->Ok_0.template@
            &&& before->Ok_0.languages.len() == after->Ok_0.languages.len()
            &&& forall|i: int|
                0 <= i < before->Ok_0.languages.len() ==> before->Ok_0.languages[i]@
                    == after->Ok_0.languages[i]@
        },
{
    let u = t.insert(k, row);
    assert(u[0] == t[0]);
    assert(header_width(u) == header_width(t));
    assert(well_formed(u) == well_formed(t)) by {
        if well_formed(t) {
            assert forall|j: int| 1 <= j < u.len() implies row_fits(u, j) by {
                if j > k {
                    assert(u[j] == t[j - 1]);
                    assert(row_fits(t, j - 1));
                } else if j < k {
                    assert(u[j] == t[j]);
                    assert(row_fits(t, j));
                } else {
                    assert(u[j] == row);
                }
            }
        }
        if well_formed(u) {
            assert forall|j: int| 1 <= j < t.len() implies row_fits(t, j) by {
                if j >= k {
                    assert(u[j + 1] == t[j]);
                    assert(row_fits(u, j + 1));
                } else {
                    assert(u[j] == t[j]);
                    assert(row_fits(u, j));
                }
            }
        }
    }
    lemma_entries_skip(t, row, k, 0, t.len());
    if before is Ok {
        assert forall|i: int| 0 <= i < before->Ok_0.languages.len() implies before->Ok_0.languages[i]@
            == after->Ok_0.languages[i]@ by {
            lemma_entries_skip(t, row, k, i + 1, t.len());
            assert(language_file(u, project, i) == language_file(t, project, i));
        }
    }
}

/// Converting the same input twice gives the same outcome: both succeed with
/// identical files, both fail at the same record, or csv rejects the input
/// both times.
pub proof fn conversion_is_deterministic(
    input: Seq<u8>,
    project: Seq<char>,
    first: Result<Catalog, ConvertError>,
    second: Result<Catalog, ConvertError>,
)
    requires
        input_outcome(input, project, first),
        input_outcome(input, project, second),
    ensures
        first is Ok <==> second is Ok,
        first is Ok ==> {
            &&& first->Ok_0.template@ == second->Ok_0.template@
            &&& first->Ok_0.languages.len() == second->Ok_0.languages.len()
            &&& forall|i: int|
                0 <= i < first->Ok_0.languages.len() ==> first->Ok_0.languages[i]@
                    == second->Ok_0.languages[i]@
        },
        first matches Err(ConvertError::Format { row }) ==> second == Err::<Catalog, ConvertError>(
            ConvertError::Format { row },
        ),
        first matches Err(ConvertError::Input(_)) ==> second matches Err(ConvertError::Input(_)),
{
    if let Some(t) = csv_rows(input, QUOTE_ESCAPE) {
        if first is Ok {
            assert forall|i: int| 0 <= i < first->Ok_0.languages.len() implies first->Ok_0.languages[i]@
                == second->Ok_0.languages[i]@ by {
                assert(first->Ok_0.languages[i]@ == language_file(t, project, i));
                assert(second->Ok_0.languages[i]@ == language_file(t, project, i));
            }
        }
    }
}

} // verus!
