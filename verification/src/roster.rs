//! The roster of known opponents: identity construction and the rules for
//! keeping the saved list free of duplicates.

use vstd::prelude::*;
use vstd::string::StringExecFns;

verus! {

/// Whether an opponent is driven by a person or by the machine.
#[derive(Clone, Copy, Debug, PartialEq, Eq, Structural)]
pub enum OpponentType {
    Human,
    Computer,
}

/// A saved opponent: display name, stable identifier, and kind.
#[derive(Clone, Debug, PartialEq, Eq)]
pub struct Opponent {
    pub name: String,
    pub id: String,
    pub opponent_type: OpponentType,
}

/// What `str::to_lowercase` returns for a given character sequence; the
/// result depends on the characters alone.
pub uninterp spec fn lower_of(s: Seq<char>) -> Seq<char>;

/// Every space replaced by an underscore, all other characters kept.
pub open spec fn underscore_spaces(s: Seq<char>) -> Seq<char> {
    s.map_values(|c: char| if c == ' ' { '_' } else { c })
}

/// The identifier prefix for each kind of opponent.
pub open spec fn kind_prefix(t: OpponentType) -> Seq<char> {
    match t {
        OpponentType::Human => "human"@,
        OpponentType::Computer => "cpu"@,
    }
}

/// Relies on `str::to_lowercase`: the result is a function of the
/// characters alone, here named `lower_of`; an empty string stays empty.
#[verifier::external_body]
fn to_lowercase(s: &str) -> (r: String)
    ensures
        r@ == lower_of(s@),
        s@.len() == 0 ==> r@.len() == 0,
{
    s.to_lowercase()
}

/// Relies on `str::replace` with the one-character pattern `" "` and
/// replacement `"_"`: each space becomes an underscore and every other
/// character is kept unchanged.
#[verifier::external_body]
fn underscore_name(s: &str) -> (r: String)
    ensures
        r@ == underscore_spaces(s@),
{
    s.replace(" ", "_")
}

impl Opponent {
    /// Builds an opponent whose identifier is its kind's prefix, an
    /// underscore, and the display name lowercased with spaces turned into
    /// underscores.
    pub fn new(name: String, opponent_type: OpponentType) -> (o: Opponent)
        ensures
            o.name == name,
            o.opponent_type == opponent_type,
            (o.id@ == kind_prefix(opponent_type) + "_"@ + underscore_spaces(lower_of(name@))),
    {
        let lower = to_lowercase(name.as_str());
        let slug = underscore_name(lower.as_str());
        let prefix = match opponent_type {
            OpponentType::Human => "human",
            OpponentType::Computer => "cpu",
        };
        let mut id = String::from_str(prefix);
        id.append("_");
        id.append(slug.as_str());
        Opponent { name, id, opponent_type }
    }
}

/// Some entry of the list already carries this identifier.
pub open spec fn has_opponent_id(s: Seq<Opponent>, id: Seq<char>) -> bool {
    exists|i: int| 0 <= i < s.len() && s[i].id@ == id
}

/// Adds an opponent to the saved list unless one with the same identifier
/// is already there; the list keeps its order either way.
pub fn add_opponent(list: &mut Vec<Opponent>, opponent: Opponent)
    ensures
        has_opponent_id(old(list)@, opponent.id@) ==> final(list)@ == old(list)@,
        !has_opponent_id(old(list)@, opponent.id@) ==> final(list)@ == old(list)@.push(opponent),
{
    let mut i: usize = 0;
    while i < list.len()
        invariant
            i <= list@.len(),
            forall|j: int| 0 <= j < i ==> list@[j].id@ != opponent.id@,
        decreases list@.len() - i,
    {
        if list[i].id == opponent.id {
            assert(has_opponent_id(list@, opponent.id@));
            return ;
        }
        i += 1;
    }
    assert(!has_opponent_id(list@, opponent.id@));
    list.push(opponent);
}

/// The list with every opponent of the given identifier removed, everyone
/// else kept in order.
pub open spec fn without_id(s: Seq<Opponent>, id: Seq<char>) -> Seq<Opponent>
    decreases s.len(),
{
    if s.len() == 0 {
        s
    } else {
        let rest = without_id(s.drop_last(), id);
        if s.last().id@ != id {
            rest.push(s.last())
        } else {
            rest
        }
    }
}

/// Removes every opponent with the given identifier from the saved list,
/// keeping everyone else in the original order.
pub fn remove_opponent(list: &mut Vec<Opponent>, id: &String)
    ensures
        (final(list)@ == without_id(old(list)@, id@)),
{
    let ghost orig = old(list)@;
    let mut i: usize = 0;
    let ghost mut j: int = 0;
    proof {
        assert(orig.take(0) =~= Seq::<Opponent>::empty());
        assert(list@ =~= without_id(orig.take(j), id@) + orig.skip(j));
    }
    while i < list.len()
        invariant
            0 <= j <= orig.len(),
            i as int == without_id(orig.take(j), id@).len(),
            list@ == without_id(orig.take(j), id@) + orig.skip(j),
        decreases list@.len() - i,
    {
        proof {
            assert(j < orig.len());
            assert(list@[i as int] == orig.skip(j)[0]);
            assert(orig.skip(j)[0] == orig[j]);
            assert(orig.take(j + 1).drop_last() =~= orig.take(j));
            assert(orig.take(j + 1).last() == orig[j]);
        }
        if list[i].id == *id {
            let _ = list.remove(i);
            proof {
                assert(orig[j].id@ == id@);
                assert(without_id(orig.take(j + 1), id@) == without_id(orig.take(j), id@));
                assert(list@ =~= without_id(orig.take(j + 1), id@) + orig.skip(j + 1));
                j = j + 1;
            }
        } else {
            proof {
                assert(orig[j].id@ != id@);
                assert(without_id(orig.take(j + 1), id@) == without_id(orig.take(j), id@).push(
                    orig[j],
                ));
                assert(list@ =~= without_id(orig.take(j + 1), id@) + orig.skip(j + 1));
                j = j + 1;
            }
            i += 1;
        }
    }
    proof {
        assert(j == orig.len());
        assert(orig.take(orig.len() as int) =~= orig);
    }
}

/// Looks up an opponent by identifier.
pub fn find_opponent(list: &Vec<Opponent>, id: &String) -> (r: Option<usize>)
    ensures
        r matches Some(i) ==> i < list@.len() && list@[i as int].id@ == id@,
        r is None ==> !has_opponent_id(list@, id@),
{
    let mut i: usize = 0;
    while i < list.len()
        invariant
            i <= list@.len(),
            forall|j: int| 0 <= j < i ==> list@[j].id@ != id@,
        decreases list@.len() - i,
    {
        if list[i].id == *id {
            return Some(i);
        }
        i += 1;
    }
    None
}

} // verus!
