use vstd::prelude::*;

verus! {

/// A decoded, typed request. The wire format and the parser that produces
/// one of these are external collaborators; the core only dispatches on the
/// finished variant. The sum type is closed: adding a variant forces every
/// dispatch site to be revisited.
pub enum Command {
    /// Read the value bound to `key`.
    Get { key: String },
    /// Bind `val` to `key` (the store/"SET" request), replacing any earlier binding.
    Put { key: String, val: Vec<u8> },
    /// A command that decoded cleanly but is not supported by this core
    /// (`name` is its keyword). Answered explicitly instead of tearing the
    /// connection down.
    Other { name: String },
}

/// The mathematical shape of a command: key characters and value bytes.
pub enum CommandModel {
    Get(Seq<char>),
    Put(Seq<char>, Seq<u8>),
    Other(Seq<char>),
}

impl View for Command {
    type V = CommandModel;

    open spec fn view(&self) -> CommandModel {
        match self {
            Command::Get { key } => CommandModel::Get(key@),
            Command::Put { key, val } => CommandModel::Put(key@, val@),
            Command::Other { name } => CommandModel::Other(name@),
        }
    }
}

/// What one request is answered with. On the server it is rendered as a
/// response frame; on the client it is what the manager routes back to the
/// caller through its reply channel.
pub enum Response {
    /// A write was applied (the "OK" acknowledgment).
    Done,
    /// A read found this value.
    Found(Vec<u8>),
    /// A read found no binding (the "null/absent" answer).
    Missing,
    /// The command variant is not supported by this core.
    Unsupported,
    /// A transport failure was propagated back to the caller.
    Failed(String),
}

/// The mathematical shape of a response.
pub enum ResponseModel {
    Done,
    Found(Seq<u8>),
    Missing,
    Unsupported,
    Failed(Seq<char>),
}

impl View for Response {
    type V = ResponseModel;

    open spec fn view(&self) -> ResponseModel {
        match self {
            Response::Done => ResponseModel::Done,
            Response::Found(v) => ResponseModel::Found(v@),
            Response::Missing => ResponseModel::Missing,
            Response::Unsupported => ResponseModel::Unsupported,
            Response::Failed(m) => ResponseModel::Failed(m@),
        }
    }
}

/// How one command changes the table: a write inserts its binding, every
/// other command leaves the table as it stands.
pub open spec fn step(m: Map<Seq<char>, Seq<u8>>, c: CommandModel) -> Map<Seq<char>, Seq<u8>> {
    match c {
        CommandModel::Put(k, v) => m.insert(k, v),
        _ => m,
    }
}

/// What one command is answered with, against the table it found.
pub open spec fn reply_of(m: Map<Seq<char>, Seq<u8>>, c: CommandModel) -> ResponseModel {
    match c {
        CommandModel::Get(k) => if m.contains_key(k) {
            ResponseModel::Found(m[k])
        } else {
            ResponseModel::Missing
        },
        CommandModel::Put(_, _) => ResponseModel::Done,
        CommandModel::Other(_) => ResponseModel::Unsupported,
    }
}

/// The table after a whole sequence of commands has been applied in order.
pub open spec fn table_after(
    m: Map<Seq<char>, Seq<u8>>,
    s: Seq<CommandModel>,
) -> Map<Seq<char>, Seq<u8>>
    decreases s.len(),
{
    if s.len() == 0 {
        m
    } else {
        table_after(step(m, s[0]), s.drop_first())
    }
}

/// Applying one more command at the end of a run is one more step on the
/// table the run produced.
pub proof fn lemma_table_after_snoc(
    m: Map<Seq<char>, Seq<u8>>,
    s: Seq<CommandModel>,
    c: CommandModel,
)
    ensures
        table_after(m, s.push(c)) == step(table_after(m, s), c),
    decreases s.len(),
{
    reveal_with_fuel(table_after, 3);
    if s.len() == 0 {
        assert(s.push(c)[0] == c);
        assert(s.push(c).drop_first() =~= Seq::<CommandModel>::empty());
    } else {
        assert(s.push(c)[0] == s[0]);
        assert(s.push(c).drop_first() =~= s.drop_first().push(c));
        lemma_table_after_snoc(step(m, s[0]), s.drop_first(), c);
    }
}

} // verus!
