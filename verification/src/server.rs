use vstd::prelude::*;
use crate::command::{Command, CommandModel, Response, ResponseModel, reply_of, step, table_after};
use crate::table::{copy_bytes, Table};

verus! {

/// The decision step of a connection handler: dispatch one decoded command
/// against the shared table and produce the response that goes back on the
/// same connection. Reading the frame, decoding it and writing the answer
/// out are the caller's side of the bargain; this is the critical section
/// between them, run while the table's lock is held.
///
/// A write acknowledges with `Done`, a read answers `Found` or `Missing`,
/// and an unsupported variant is answered explicitly with `Unsupported`
/// instead of abandoning the connection.
pub fn apply_command(table: &mut Table, cmd: Command) -> (resp: Response)
    ensures
        final(table)@ == step(old(table)@, cmd@),
        resp@ == reply_of(old(table)@, cmd@),
{
    match cmd {
        Command::Get { key } => {
            match table.get(&key) {
                Some(v) => Response::Found(copy_bytes(v)),
                None => Response::Missing,
            }
        },
        Command::Put { key, val } => {
            table.set(key, val);
            Response::Done
        },
        Command::Other { name: _ } => Response::Unsupported,
    }
}

/// Reading back a key right after writing it yields exactly the value that
/// was written, on any table.
pub proof fn lemma_set_then_get(m: Map<Seq<char>, Seq<u8>>, k: Seq<char>, v: Seq<u8>)
    ensures
        reply_of(step(m, CommandModel::Put(k, v)), CommandModel::Get(k)) == ResponseModel::Found(
            v,
        ),
{
}

/// A key that no command of a run ever wrote, and that the table did not
/// hold to begin with, stays absent: a read of it answers `Missing`, never
/// an error, after any such run.
pub proof fn lemma_unwritten_key_stays_absent(
    m: Map<Seq<char>, Seq<u8>>,
    s: Seq<CommandModel>,
    k: Seq<char>,
)
    requires
        !m.contains_key(k),
        forall|i: int| 0 <= i < s.len() ==> !(#[trigger] s[i] matches CommandModel::Put(k2, _)
            && k2 == k),
    ensures
        !table_after(m, s).contains_key(k),
        reply_of(table_after(m, s), CommandModel::Get(k)) == ResponseModel::Missing,
    decreases s.len(),
{
    if s.len() > 0 {
        assert(!(s[0] matches CommandModel::Put(k2, _) && k2 == k));
        assert(forall|i: int| 0 <= i < s.drop_first().len() ==> !(#[trigger] s.drop_first()[i]
            matches CommandModel::Put(k2, _) && k2 == k)) by {
            assert(forall|i: int| 0 <= i < s.drop_first().len() ==> s.drop_first()[i] == s[i + 1]);
        }
        lemma_unwritten_key_stays_absent(step(m, s[0]), s.drop_first(), k);
    }
}

/// Two racing writes to the same key serialize under the table's lock: in
/// either order the table ends holding exactly the write that came second,
/// never a mixture of the two.
pub proof fn lemma_racing_writes_serialize(
    m: Map<Seq<char>, Seq<u8>>,
    k: Seq<char>,
    v1: Seq<u8>,
    v2: Seq<u8>,
)
    ensures
        table_after(m, seq![CommandModel::Put(k, v1), CommandModel::Put(k, v2)]).contains_key(k),
        table_after(m, seq![CommandModel::Put(k, v1), CommandModel::Put(k, v2)])[k] == v2,
        table_after(m, seq![CommandModel::Put(k, v2), CommandModel::Put(k, v1)])[k] == v1,
{
    reveal_with_fuel(table_after, 3);
    assert(seq![CommandModel::Put(k, v1), CommandModel::Put(k, v2)].drop_first()
        =~= seq![CommandModel::Put(k, v2)]);
    assert(seq![CommandModel::Put(k, v2), CommandModel::Put(k, v1)].drop_first()
        =~= seq![CommandModel::Put(k, v1)]);
    assert(seq![CommandModel::Put(k, v2)].drop_first() =~= Seq::<CommandModel>::empty());
    assert(seq![CommandModel::Put(k, v1)].drop_first() =~= Seq::<CommandModel>::empty());
}

/// Handlers that write disjoint keys do not disturb each other: the two
/// serialization orders produce the same table, and each key holds its own
/// handler's value — no update is lost.
pub proof fn lemma_disjoint_keys_independent(
    m: Map<Seq<char>, Seq<u8>>,
    k1: Seq<char>,
    v1: Seq<u8>,
    k2: Seq<char>,
    v2: Seq<u8>,
)
    requires
        k1 != k2,
    ensures
        table_after(m, seq![CommandModel::Put(k1, v1), CommandModel::Put(k2, v2)]) == table_after(
            m,
            seq![CommandModel::Put(k2, v2), CommandModel::Put(k1, v1)],
        ),
        table_after(m, seq![CommandModel::Put(k1, v1), CommandModel::Put(k2, v2)])[k1] == v1,
        table_after(m, seq![CommandModel::Put(k1, v1), CommandModel::Put(k2, v2)])[k2] == v2,
{
    reveal_with_fuel(table_after, 3);
    assert(seq![CommandModel::Put(k1, v1), CommandModel::Put(k2, v2)].drop_first()
        =~= seq![CommandModel::Put(k2, v2)]);
    assert(seq![CommandModel::Put(k2, v2), CommandModel::Put(k1, v1)].drop_first()
        =~= seq![CommandModel::Put(k1, v1)]);
    assert(seq![CommandModel::Put(k2, v2)].drop_first() =~= Seq::<CommandModel>::empty());
    assert(seq![CommandModel::Put(k1, v1)].drop_first() =~= Seq::<CommandModel>::empty());
    assert(m.insert(k1, v1).insert(k2, v2) =~= m.insert(k2, v2).insert(k1, v1));
}

} // verus!
