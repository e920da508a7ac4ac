//! In-place substitution over a tokenized line: names resolved to numbers,
//! either as plain literals or through a table of variables.
use crate::errors::MathParseErrors;
use crate::numbers::Number;
use crate::solve::lookup_variable;
use crate::solve::map_view;
use crate::solve::number_from_string;
use crate::solve::solve_replacement;
use crate::solve::spec_lookup;
use crate::solve::spec_number_from_string;
use crate::solve::spec_solve_replacement;
use crate::tokenize::MathValue;
use crate::tokenize::MathValueV;
use crate::tokenize::math_seq_view;
use vstd::pervasive::VecAdditionalExecFns;
use vstd::prelude::*;

verus! {

/// Take a line of `MathValue` and replace each name found with a number read
/// as a literal; the first name that does not read as a number is the error.
pub fn read_numbers(line: &mut Vec<MathValue>) -> (r: Result<(), MathParseErrors>)
    ensures
        final (line)@.len() == old(line)@.len(),
        r is Ok ==> forall|j: int|
            0 <= j < old(line)@.len() ==> {
                &&& (#[trigger] math_seq_view(old(line)@)[j] matches MathValueV::Name(n) ==> (
                spec_number_from_string(n) matches Ok(num) && math_seq_view(final (line)@)[j]
                    == MathValueV::Value(num)))
                &&& (!(math_seq_view(old(line)@)[j] is Name) ==> math_seq_view(final (line)@)[j]
                    == math_seq_view(old(line)@)[j])
            },
        r matches Err(e) ==> exists|j: int|
            0 <= j < old(line)@.len() && (#[trigger] math_seq_view(old(line)@)[j] matches
            MathValueV::Name(n) && spec_number_from_string(n) == Err::<Number, crate::errors::ErrorV>(e@)),
{
    let ghost base = math_seq_view(old(line)@);
    let mut i: usize = 0;
    while i < line.len()
        invariant
            i <= line@.len(),
            line@.len() == old(line)@.len(),
            base == math_seq_view(old(line)@),
            forall|j: int|
                i <= j < line@.len() ==> #[trigger] math_seq_view(line@)[j] == base[j],
            forall|j: int|
                0 <= j < i ==> {
                    &&& (#[trigger] base[j] matches MathValueV::Name(n) ==> (
                    spec_number_from_string(n) matches Ok(num) && math_seq_view(line@)[j]
                        == MathValueV::Value(num)))
                    &&& (!(base[j] is Name) ==> math_seq_view(line@)[j] == base[j])
                },
        decreases line@.len() - i,
    {
        let replacement = match &line[i] {
            MathValue::Name(name) => {
                match number_from_string(name.as_str()) {
                    Ok(num) => Some(num),
                    Err(e) => {
                        proof {
                            assert(math_seq_view(line@)[i as int] == base[i as int]);
                            assert(base[i as int] matches MathValueV::Name(nn)
                                && spec_number_from_string(nn) == Err::<
                                Number,
                                crate::errors::ErrorV,
                            >(e@));
                        }
                        return Err(e);
                    },
                }
            },
            _ => None,
        };
        if let Some(num) = replacement {
            line.set(i, MathValue::Value(num));
        }
        i = i + 1;
    }
    Ok(())
}

/// How one slot of the line looks after substitution through a table: a name
/// the table holds became the value its replacement expression solves to,
/// and every other slot is untouched.
pub open spec fn spec_substituted_at(
    base: Seq<MathValueV>,
    cur: Seq<MathValueV>,
    m: Option<Seq<(Seq<char>, Seq<char>)>>,
    j: int,
) -> bool {
    &&& (base[j] matches MathValueV::Name(n) ==> (spec_lookup(m, n) matches Some(text) ==> (
    spec_solve_replacement(text) matches Ok(num) && cur[j] == MathValueV::Value(num))))
    &&& (base[j] matches MathValueV::Name(n) && spec_lookup(m, n) is None ==> cur[j] == base[j])
    &&& (!(base[j] is Name) ==> cur[j] == base[j])
}

/// Reads all names of a line of math and transform any name the table holds
/// into the value of its replacement expression (parsed and solved through
/// the whole pipeline, with no further substitution inside). If the table is
/// `None`, nothing is done. The first replacement that fails to parse and
/// solve is the error.
#[verifier::rlimit(50)]
pub fn read_named_variables(
    line: &mut Vec<MathValue>,
    map: Option<&Vec<(String, String)>>,
) -> (r: Result<(), MathParseErrors>)
    ensures
        final (line)@.len() == old(line)@.len(),
        r is Ok ==> forall|j: int|
            0 <= j < old(line)@.len() ==> #[trigger] spec_substituted_at(
                math_seq_view(old(line)@),
                math_seq_view(final (line)@),
                map_view(map),
                j,
            ),
        r matches Err(e) ==> exists|j: int|
            0 <= j < old(line)@.len() && (#[trigger] math_seq_view(old(line)@)[j] matches
            MathValueV::Name(n) && spec_lookup(map_view(map), n) matches Some(text)
                && spec_solve_replacement(text) == Err::<Number, crate::errors::ErrorV>(e@)),
{
    let ghost base = math_seq_view(old(line)@);
    let mut i: usize = 0;
    while i < line.len()
        invariant
            i <= line@.len(),
            line@.len() == old(line)@.len(),
            base == math_seq_view(old(line)@),
            forall|j: int|
                i <= j < line@.len() ==> #[trigger] math_seq_view(line@)[j] == base[j],
            forall|j: int|
                0 <= j < i ==> #[trigger] spec_substituted_at(
                    base,
                    math_seq_view(line@),
                    map_view(map),
                    j,
                ),
        decreases line@.len() - i,
    {
        let ghost pre = math_seq_view(line@);
        match &line[i] {
            MathValue::Name(name) => {
                proof {
                    assert(pre[i as int] == base[i as int]);
                    assert(base[i as int] == MathValueV::Name(name@));
                }
                match lookup_variable(map, name) {
                    Some(new_name) => {
                        proof {
                            assert(spec_lookup(map_view(map), name@) == Some(new_name@));
                        }
                        match solve_replacement(new_name.as_str()) {
                            Ok(num) => {
                                line.set(i, MathValue::Value(num));
                                proof {
                                    assert(math_seq_view(line@) =~= pre.update(
                                        i as int,
                                        MathValueV::Value(num),
                                    ));
                                    assert(spec_substituted_at(
                                        base,
                                        math_seq_view(line@),
                                        map_view(map),
                                        i as int,
                                    ));
                                }
                            },
                            Err(e) => {
                                proof {
                                    assert(spec_solve_replacement(new_name@) == Err::<
                                        Number,
                                        crate::errors::ErrorV,
                                    >(e@));
                                }
                                return Err(e);
                            },
                        }
                    },
                    None => {
                        proof {
                            assert(math_seq_view(line@) == pre);
                            assert(math_seq_view(line@)[i as int] == base[i as int]);
                            assert(spec_lookup(map_view(map), name@) is None);
                            assert(spec_substituted_at(
                                base,
                                math_seq_view(line@),
                                map_view(map),
                                i as int,
                            ));
                        }
                    },
                }
            },
            _ => {
                proof {
                    assert(math_seq_view(line@) == pre);
                    assert(math_seq_view(line@)[i as int] == base[i as int]);
                    assert(!(base[i as int] is Name));
                    assert(spec_substituted_at(
                        base,
                        math_seq_view(line@),
                        map_view(map),
                        i as int,
                    ));
                }
            },
        }
        proof {
            assert forall|j: int| 0 <= j < i implies #[trigger] spec_substituted_at(
                base,
                math_seq_view(line@),
                map_view(map),
                j,
            ) by {
                assert(spec_substituted_at(base, pre, map_view(map), j));
                assert(math_seq_view(line@)[j] == pre[j]);
            }
        }
        i = i + 1;
    }
    Ok(())
}

} // verus!
