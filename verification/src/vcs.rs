//! Version-control bookkeeping the pipeline decides itself: the naming of
//! pass tags and backup branches, the parsing of tag listings, and the
//! rollback plan with its safety checks.  Running the underlying VCS
//! commands is I/O and lives outside the library.

use vstd::multiset::Multiset;
use vstd::prelude::*;

use crate::text::{
    parse_u32, spec_decimal, spec_parse_u32, spec_starts_with, spec_trim, starts_with, spec_lines,
    split_lines, strs_view, trim, u32_to_string,
};

verus! {

/// The tag that marks the snapshot of a pass.
pub open spec fn spec_pass_tag(pass: u32) -> Seq<char> {
    "lisa/pass-"@ + spec_decimal(pass as nat)
}

/// Render the tag name that marks the snapshot of `pass`.
pub fn pass_tag(pass: u32) -> (r: String)
    ensures
        r@ == spec_pass_tag(pass),
{
    let mut s = "lisa/pass-".to_owned();
    let num = u32_to_string(pass);
    s.append(num.as_str());
    s
}

// ---------------------------------------------------------------------------
// Tag listings
// ---------------------------------------------------------------------------

/// The pass number a tag-listing line names: the line, trimmed, must read
/// `lisa/pass-` followed by a numeral that fits in a `u32`.
pub open spec fn spec_tag_num(line: Seq<char>) -> Option<u32> {
    let t = spec_trim(line);
    if spec_starts_with(t, "lisa/pass-"@) {
        spec_parse_u32(t.skip("lisa/pass-"@.len() as int))
    } else {
        None
    }
}

/// The pass numbers named by a tag listing, in listing order.
pub open spec fn spec_tag_values(ls: Seq<Seq<char>>) -> Seq<u32>
    decreases ls.len(),
{
    if ls.len() == 0 {
        Seq::empty()
    } else {
        spec_tag_values(ls.drop_last()) + match spec_tag_num(ls.last()) {
            Some(v) => seq![v],
            None => Seq::empty(),
        }
    }
}

/// Ascending order.
pub open spec fn sorted_u32(s: Seq<u32>) -> bool {
    forall|i: int, j: int| 0 <= i < j < s.len() ==> s[i] <= s[j]
}

/// Sort a vector of pass numbers ascending, keeping duplicates.
fn sort_u32(v: Vec<u32>) -> (r: Vec<u32>)
    ensures
        r@.to_multiset() == v@.to_multiset(),
        sorted_u32(r@),
        r@.len() == v@.len(),
{
    broadcast use vstd::seq_lib::group_to_multiset_ensures;

    let mut src = v;
    let mut out: Vec<u32> = Vec::new();
    let ghost whole = src@.to_multiset();
    proof {
        assert(out@.to_multiset().add(src@.to_multiset()) =~= whole);
    }
    while src.len() > 0
        invariant
            out@.to_multiset().add(src@.to_multiset()) == whole,
            whole.len() == v@.len(),
            sorted_u32(out@),
            forall|a: int, b: int|
                0 <= a < out@.len() && 0 <= b < src@.len() ==> out@[a] <= src@[b],
        decreases src.len(),
    {
        // find the least element of src
        let mut m: usize = 0;
        let mut j: usize = 1;
        while j < src.len()
            invariant
                0 <= m < src@.len(),
                m < j <= src@.len() || (j <= src@.len() && m == 0),
                forall|k: int| 0 <= k < j ==> src@[m as int] <= src@[k],
            decreases src.len() - j,
        {
            if src[j] < src[m] {
                m = j;
            }
            j = j + 1;
        }
        let ghost pre_src = src@;
        let ghost pre_out = out@;
        let x = src.remove(m);
        proof {
            pre_src.to_multiset_ensures();
            assert(pre_src[m as int] == x);
            assert(pre_src.contains(x));
            assert(src@.to_multiset() =~= pre_src.to_multiset().remove(x));
            assert(pre_src.to_multiset().count(x) > 0);
        }
        out.push(x);
        proof {
            pre_out.to_multiset_ensures();
            assert(out@.to_multiset() =~= pre_out.to_multiset().insert(x));
            assert(out@.to_multiset().add(src@.to_multiset()) =~= pre_out.to_multiset().add(
                pre_src.to_multiset(),
            ));
            assert forall|a: int, b: int|
                0 <= a < out@.len() && 0 <= b < src@.len() implies out@[a] <= src@[b] by {
                assert(src@[b] == pre_src.remove(m as int)[b]);
                if a < pre_out.len() {
                    assert(out@[a] == pre_out[a]);
                } else {
                    assert(out@[a] == x);
                    if b < m {
                        assert(pre_src.remove(m as int)[b] == pre_src[b]);
                    } else {
                        assert(pre_src.remove(m as int)[b] == pre_src[b + 1]);
                    }
                }
            }
            assert forall|a: int, b: int| 0 <= a < b < out@.len() implies out@[a] <= out@[b] by {
                if b < pre_out.len() {
                    assert(out@[a] == pre_out[a] && out@[b] == pre_out[b]);
                } else {
                    assert(out@[b] == x);
                    if a < pre_out.len() {
                        assert(out@[a] == pre_out[a]);
                        assert(pre_src[m as int] == x);
                    }
                }
            }
        }
    }
    proof {
        assert(src@.to_multiset() =~= Multiset::<u32>::empty());
        assert(out@.to_multiset() =~= whole);
        assert(out@.to_multiset().len() == out@.len());
    }
    out
}

/// Parse a tag listing into the pass numbers it names, sorted ascending.
/// Lines that do not read as `lisa/pass-` followed by a number are ignored.
pub fn parse_pass_tags(output: &str) -> (r: Vec<u32>)
    ensures
        r@.to_multiset() == spec_tag_values(spec_lines(output@)).to_multiset(),
        sorted_u32(r@),
{
    let lines = split_lines(output);
    let ghost ls = spec_lines(output@);
    let mut vals: Vec<u32> = Vec::new();
    let mut i: usize = 0;
    proof {
        broadcast use vstd::seq_lib::group_to_multiset_ensures;

        assert(ls.subrange(0, 0) =~= Seq::<Seq<char>>::empty());
        assert(vals@ =~= Seq::<u32>::empty());
    }
    while i < lines.len()
        invariant
            strs_view(lines@) == ls,
            lines@.len() == ls.len(),
            0 <= i <= lines@.len(),
            vals@ == spec_tag_values(ls.subrange(0, i as int)),
        decreases lines.len() - i,
    {
        proof {
            assert(ls[i as int] == lines@[i as int]@);
            assert(ls.subrange(0, i + 1).drop_last() =~= ls.subrange(0, i as int));
            assert(ls.subrange(0, i + 1).last() == ls[i as int]);
        }
        let line = &lines[i];
        let t = trim(line.as_str());
        let ghost pre = vals@;
        if starts_with(t, "lisa/pass-") {
            proof {
                reveal_strlit("lisa/pass-");
            }
            let rest = t.substring_char(10, t.unicode_len());
            proof {
                assert(rest@ =~= spec_trim(line@).skip(10));
            }
            match parse_u32(rest) {
                Some(v) => {
                    vals.push(v);
                    proof {
                        assert(vals@ =~= pre + seq![v]);
                    }
                },
                None => {
                    proof {
                        assert(vals@ =~= pre + Seq::<u32>::empty());
                    }
                },
            }
        } else {
            proof {
                assert(vals@ =~= pre + Seq::<u32>::empty());
            }
        }
        i = i + 1;
    }
    proof {
        assert(ls.subrange(0, ls.len() as int) =~= ls);
    }
    sort_u32(vals)
}

// ---------------------------------------------------------------------------
// Rollback planning
// ---------------------------------------------------------------------------

/// Why a rollback is refused.
#[derive(Debug, Clone, Copy, PartialEq, Eq, Structural)]
pub enum RollbackError {
    /// No snapshot tag exists for the target pass.
    TagNotFound,
    /// The working tree holds uncommitted changes.
    UncommittedChanges,
}

/// What a rollback does, in order: create the backup branch at the current
/// head, hard-reset the tree to the tag, and restore the usage ledger from
/// the backup branch so cost history survives the rollback.
#[derive(Debug, Clone)]
pub struct RollbackPlan {
    pub tag: String,
    pub backup_branch: String,
    pub restore_ledger_from_backup: bool,
}

/// Decide a rollback to `target_pass`.  Refused when no tag exists for the
/// target pass, and when uncommitted changes are present; otherwise the plan
/// names the tag to reset to and a timestamped backup branch, and always
/// restores the usage ledger from the backup so that cost history is never
/// truncated by a rollback.
pub fn rollback_plan(
    available: &Vec<u32>,
    target_pass: u32,
    has_uncommitted: bool,
    timestamp: &str,
) -> (r: Result<RollbackPlan, RollbackError>)
    ensures
        (r == Result::<RollbackPlan, RollbackError>::Err(RollbackError::TagNotFound)) <==> !available@.contains(
            target_pass,
        ),
        (r == Result::<RollbackPlan, RollbackError>::Err(RollbackError::UncommittedChanges))
            <==> (available@.contains(target_pass) && has_uncommitted),
        r is Ok ==> {
            &&& available@.contains(target_pass)
            &&& !has_uncommitted
            &&& r->Ok_0.tag@ == spec_pass_tag(target_pass)
            &&& r->Ok_0.backup_branch@ == "lisa/backup/rollback-"@ + timestamp@
            &&& r->Ok_0.restore_ledger_from_backup
        },
        r is Ok <==> (available@.contains(target_pass) && !has_uncommitted),
{
    let mut found = false;
    let mut i: usize = 0;
    while i < available.len()
        invariant
            0 <= i <= available@.len(),
            found == exists|k: int| 0 <= k < i && available@[k] == target_pass,
        decreases available.len() - i,
    {
        if available[i] == target_pass {
            found = true;
        }
        i = i + 1;
    }
    if !found {
        return Err(RollbackError::TagNotFound);
    }
    if has_uncommitted {
        return Err(RollbackError::UncommittedChanges);
    }
    let tag = pass_tag(target_pass);
    let mut backup_branch = "lisa/backup/rollback-".to_owned();
    backup_branch.append(timestamp);
    Ok(RollbackPlan { tag, backup_branch, restore_ledger_from_backup: true })
}

} // verus!
