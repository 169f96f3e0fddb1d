use vstd::prelude::*;

verus! {

/// A participant. The `name` is the durable identity key (unique among
/// registered players); the connection handle `id` is ephemeral and becomes
/// `None` on disconnect.
#[derive(Debug)]
pub struct Player {
    pub id: Option<usize>,
    pub name: String,
}

impl Clone for Player {
    fn clone(&self) -> (r: Self)
        ensures
            r == *self,
    {
        Player { id: self.id, name: self.name.clone() }
    }
}

/// The immutable record of a completed round, appended to the session history.
#[derive(Debug)]
pub struct PastRound {
    pub name: String,
    pub word: String,
    pub success: bool,
}

impl Clone for PastRound {
    fn clone(&self) -> (r: Self)
        ensures
            r == *self,
    {
        PastRound { name: self.name.clone(), word: self.word.clone(), success: self.success }
    }
}

/// A single numeric update submitted by one connection.
#[derive(Debug)]
pub struct Turn {
    pub id: usize,
    pub new_value: i64,
}

/// No two players at distinct positions share a name.
pub open spec fn names_unique(ps: Seq<Player>) -> bool {
    forall|i: int, j: int|
        0 <= i < ps.len() && 0 <= j < ps.len() && i != j ==> ps[i].name@ != ps[j].name@
}

/// `i` is the first position whose player currently holds the connection
/// handle `id`.
pub open spec fn is_first_handle(ps: Seq<Player>, id: usize, i: int) -> bool {
    &&& 0 <= i < ps.len()
    &&& ps[i].id == Some(id)
    &&& forall|j: int| 0 <= j < i ==> ps[j].id != Some(id)
}

/// Some player currently holds the connection handle `id`.
pub open spec fn has_handle(ps: Seq<Player>, id: usize) -> bool {
    exists|i: int| is_first_handle(ps, id, i)
}

/// The first position whose player holds the handle `id` (meaningful only
/// under `has_handle`).
pub open spec fn first_handle(ps: Seq<Player>, id: usize) -> int {
    choose|i: int| is_first_handle(ps, id, i)
}

/// `i` is the first position whose player is named `name`.
pub open spec fn is_first_name(ps: Seq<Player>, name: Seq<char>, i: int) -> bool {
    &&& 0 <= i < ps.len()
    &&& ps[i].name@ == name
    &&& forall|j: int| 0 <= j < i ==> ps[j].name@ != name
}

/// Some player is named `name`.
pub open spec fn has_name(ps: Seq<Player>, name: Seq<char>) -> bool {
    exists|i: int| is_first_name(ps, name, i)
}

/// The first position whose player is named `name` (meaningful only under
/// `has_name`).
pub open spec fn first_name(ps: Seq<Player>, name: Seq<char>) -> int {
    choose|i: int| is_first_name(ps, name, i)
}

/// At most one position can be the first holder of a handle.
pub proof fn lemma_first_handle_unique(ps: Seq<Player>, id: usize, i: int, j: int)
    requires
        is_first_handle(ps, id, i),
        is_first_handle(ps, id, j),
    ensures
        i == j,
{
}

/// At most one position can be the first holder of a name.
pub proof fn lemma_first_name_unique(ps: Seq<Player>, name: Seq<char>, i: int, j: int)
    requires
        is_first_name(ps, name, i),
        is_first_name(ps, name, j),
    ensures
        i == j,
{
}

/// The first position with handle `id`, or `None` if no player holds it.
pub fn find_handle(ps: &Vec<Player>, id: usize) -> (r: Option<usize>)
    ensures
        match r {
            Some(i) => is_first_handle(ps@, id, i as int),
            None => forall|j: int| 0 <= j < ps@.len() ==> ps@[j].id != Some(id),
        },
        r is Some <==> has_handle(ps@, id),
{
    let mut i: usize = 0;
    while i < ps.len()
        invariant
            0 <= i <= ps@.len(),
            forall|j: int| 0 <= j < i ==> ps@[j].id != Some(id),
        decreases ps@.len() - i,
    {
        if let Some(h) = ps[i].id {
            if h == id {
                proof {
                    assert(is_first_handle(ps@, id, i as int));
                }
                return Some(i);
            }
        }
        i = i + 1;
    }
    None
}

/// The first position with name `name`, or `None` if no player carries it.
pub fn find_name(ps: &Vec<Player>, name: &String) -> (r: Option<usize>)
    ensures
        match r {
            Some(i) => is_first_name(ps@, name@, i as int),
            None => forall|j: int| 0 <= j < ps@.len() ==> ps@[j].name@ != name@,
        },
        r is Some <==> has_name(ps@, name@),
{
    let mut i: usize = 0;
    while i < ps.len()
        invariant
            0 <= i <= ps@.len(),
            forall|j: int| 0 <= j < i ==> ps@[j].name@ != name@,
        decreases ps@.len() - i,
    {
        if ps[i].name.eq(name) {
            proof {
                assert(is_first_name(ps@, name@, i as int));
            }
            return Some(i);
        }
        i = i + 1;
    }
    None
}

/// Pairwise-distinct names survive the removal of one player.
pub proof fn lemma_names_unique_remove(ps: Seq<Player>, li: int)
    requires
        names_unique(ps),
        0 <= li < ps.len(),
    ensures
        names_unique(ps.remove(li)),
{
    let rest = ps.remove(li);
    assert forall|i: int, j: int|
        0 <= i < rest.len() && 0 <= j < rest.len() && i != j implies rest[i].name@
        != rest[j].name@ by {
        let oi = if i < li { i } else { i + 1 };
        let oj = if j < li { j } else { j + 1 };
        assert(rest[i] == ps[oi]);
        assert(rest[j] == ps[oj]);
        assert(ps[oi].name@ != ps[oj].name@);
    }
}

/// An element-wise copy of the player list.
pub fn clone_players(ps: &Vec<Player>) -> (r: Vec<Player>)
    ensures
        r@ =~= ps@,
{
    let mut r: Vec<Player> = Vec::new();
    let mut i: usize = 0;
    while i < ps.len()
        invariant
            0 <= i <= ps@.len(),
            r@ =~= ps@.take(i as int),
        decreases ps@.len() - i,
    {
        r.push(ps[i].clone());
        i = i + 1;
    }
    r
}

/// An element-wise copy of the round history.
pub fn clone_past_rounds(ps: &Vec<PastRound>) -> (r: Vec<PastRound>)
    ensures
        r@ =~= ps@,
{
    let mut r: Vec<PastRound> = Vec::new();
    let mut i: usize = 0;
    while i < ps.len()
        invariant
            0 <= i <= ps@.len(),
            r@ =~= ps@.take(i as int),
        decreases ps@.len() - i,
    {
        r.push(ps[i].clone());
        i = i + 1;
    }
    r
}

} // verus!
