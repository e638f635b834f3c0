use vstd::prelude::*;
use crate::event::EventType;

verus! {

/// A (block id, port name) endpoint of a connection.
#[derive(Clone, Debug)]
pub struct ModelDefConnectionPort {
    pub block: String,
    pub port: String,
}

impl View for ModelDefConnectionPort {
    type V = (Seq<char>, Seq<char>);

    open spec fn view(&self) -> (Seq<char>, Seq<char>) {
        (self.block@, self.port@)
    }
}

impl ModelDefConnectionPort {
    pub fn new(block: String, port: String) -> (r: ModelDefConnectionPort)
        ensures
            r.block == block,
            r.port == port,
    {
        ModelDefConnectionPort { block, port }
    }
}

/// One output port feeding an ordered list of input ports.
#[derive(Clone, Debug)]
pub struct ModelDefConnection {
    pub from: ModelDefConnectionPort,
    pub to: Vec<ModelDefConnectionPort>,
}

/// Configuration of an event generator: the kind of event it emits and how
/// many it emits per second, in thousandths (so 2500 is 2.5 per second).
#[derive(Clone, Debug)]
pub struct ModelDefEventGeneratorConfiguration {
    pub event_type: EventType,
    pub frequency_millihertz: u64,
}

/// The block kinds this engine knows, with their configuration.
#[derive(Clone, Debug)]
pub enum ModelDefBlockConfig {
    EventGenerator(ModelDefEventGeneratorConfiguration),
    LoggingSink,
}

#[derive(Clone, Debug)]
pub struct ModelDefBlock {
    pub id: String,
    pub configuration: ModelDefBlockConfig,
}

/// A graph definition: blocks and the connections between their ports.
#[derive(Clone, Debug)]
pub struct ModelDef {
    pub blocks: Vec<ModelDefBlock>,
    pub connections: Vec<ModelDefConnection>,
}

/// Nanoseconds in a thousand seconds: a period in nanoseconds is this over
/// a frequency in millihertz.
pub const NANOS_PER_KILOSECOND: u64 = 1_000_000_000_000;

/// A generator must emit at a positive rate, at most once per nanosecond, so
/// that its period is a whole, positive number of nanoseconds.
pub open spec fn valid_config(c: ModelDefBlockConfig) -> bool {
    match c {
        ModelDefBlockConfig::EventGenerator(g) => 1 <= g.frequency_millihertz <= NANOS_PER_KILOSECOND,
        ModelDefBlockConfig::LoggingSink => true,
    }
}

/// The input ports a block of this kind declares.
pub open spec fn input_names(c: ModelDefBlockConfig) -> Seq<Seq<char>> {
    match c {
        ModelDefBlockConfig::EventGenerator(_) => seq![],
        ModelDefBlockConfig::LoggingSink => seq!["in"@],
    }
}

/// The output ports a block of this kind declares.
pub open spec fn output_names(c: ModelDefBlockConfig) -> Seq<Seq<char>> {
    match c {
        ModelDefBlockConfig::EventGenerator(_) => seq!["out"@],
        ModelDefBlockConfig::LoggingSink => seq![],
    }
}

/// The first index at or after `k` where `name` occurs.
pub open spec fn position(names: Seq<Seq<char>>, name: Seq<char>, k: int) -> Option<int>
    decreases names.len() - k,
{
    if k < 0 || k >= names.len() {
        None
    } else if names[k] == name {
        Some(k)
    } else {
        position(names, name, k + 1)
    }
}

pub open spec fn block_ids(blocks: Seq<ModelDefBlock>) -> Seq<Seq<char>> {
    blocks.map_values(|b: ModelDefBlock| b.id@)
}

/// A resolved connection from an output port to an input port, by block
/// index and by index among the block's declared ports.
#[derive(Clone, Copy, Debug, PartialEq, Eq, Structural)]
pub struct Link {
    pub from_block: usize,
    pub from_port: usize,
    pub to_block: usize,
    pub to_port: usize,
}

/// Why a graph definition cannot be built, over the names involved.
pub enum BuildFault {
    InvalidConfiguration(Seq<char>),
    DuplicateBlockId(Seq<char>),
    UnknownBlockReference(Seq<char>),
    UnknownPortReference(Seq<char>, Seq<char>),
    PortAlreadyBound(Seq<char>, Seq<char>),
}

/// Why a graph definition cannot be built.
#[derive(Clone, Debug)]
pub enum BuildError {
    /// The block's configuration is malformed.
    InvalidConfiguration { block: String },
    /// A second block has an id that an earlier block has.
    DuplicateBlockId { block: String },
    /// A connection names a block that the graph does not hold.
    UnknownBlockReference { block: String },
    /// A connection names a port that the block does not declare.
    UnknownPortReference { block: String, port: String },
    /// Two connections target the same input port.
    PortAlreadyBound { block: String, port: String },
}

impl View for BuildError {
    type V = BuildFault;

    open spec fn view(&self) -> BuildFault {
        match self {
            BuildError::InvalidConfiguration { block } => BuildFault::InvalidConfiguration(block@),
            BuildError::DuplicateBlockId { block } => BuildFault::DuplicateBlockId(block@),
            BuildError::UnknownBlockReference { block } => BuildFault::UnknownBlockReference(block@),
            BuildError::UnknownPortReference { block, port } => BuildFault::UnknownPortReference(
                block@,
                port@,
            ),
            BuildError::PortAlreadyBound { block, port } => BuildFault::PortAlreadyBound(
                block@,
                port@,
            ),
        }
    }
}

pub open spec fn targeted(links: Seq<Link>, b: int, p: int) -> bool {
    exists|k: int| 0 <= k < links.len() && links[k].to_block == b && links[k].to_port == p
}

pub type Endpoint = (Seq<char>, Seq<char>);

/// Resolves one (source, target) pair against the blocks, given the links
/// resolved before it.
pub open spec fn resolve(
    blocks: Seq<ModelDefBlock>,
    pair: (Endpoint, Endpoint),
    links: Seq<Link>,
) -> Result<Link, BuildFault> {
    let from = pair.0;
    let to = pair.1;
    match position(block_ids(blocks), from.0, 0) {
        None => Err(BuildFault::UnknownBlockReference(from.0)),
        Some(fb) => match position(output_names(blocks[fb].configuration), from.1, 0) {
            None => Err(BuildFault::UnknownPortReference(from.0, from.1)),
            Some(fp) => match position(block_ids(blocks), to.0, 0) {
                None => Err(BuildFault::UnknownBlockReference(to.0)),
                Some(tb) => match position(input_names(blocks[tb].configuration), to.1, 0) {
                    None => Err(BuildFault::UnknownPortReference(to.0, to.1)),
                    Some(tp) => if targeted(links, tb, tp) {
                        Err(BuildFault::PortAlreadyBound(to.0, to.1))
                    } else {
                        Ok(
                            Link {
                                from_block: fb as usize,
                                from_port: fp as usize,
                                to_block: tb as usize,
                                to_port: tp as usize,
                            },
                        )
                    },
                },
            },
        },
    }
}

/// Resolves the pairs in order; the first pair that does not resolve decides
/// the error.
pub open spec fn wiring(blocks: Seq<ModelDefBlock>, pairs: Seq<(Endpoint, Endpoint)>) -> Result<
    Seq<Link>,
    BuildFault,
>
    decreases pairs.len(),
{
    if pairs.len() == 0 {
        Ok(seq![])
    } else {
        match wiring(blocks, pairs.drop_last()) {
            Err(f) => Err(f),
            Ok(links) => match resolve(blocks, pairs.last(), links) {
                Err(f) => Err(f),
                Ok(l) => Ok(links.push(l)),
            },
        }
    }
}

/// The (source, target) pairs of one connection, in target order.
pub open spec fn targets_of(c: ModelDefConnection) -> Seq<(Endpoint, Endpoint)> {
    c.to@.map_values(|t: ModelDefConnectionPort| (c.from@, t@))
}

/// The (source, target) pairs of all connections, in order.
pub open spec fn endpoint_pairs(conns: Seq<ModelDefConnection>) -> Seq<(Endpoint, Endpoint)>
    decreases conns.len(),
{
    if conns.len() == 0 {
        seq![]
    } else {
        endpoint_pairs(conns.drop_last()) + targets_of(conns.last())
    }
}

/// The id of the first block at or after `k` whose configuration is invalid.
pub open spec fn first_invalid(blocks: Seq<ModelDefBlock>, k: int) -> Option<Seq<char>>
    decreases blocks.len() - k,
{
    if k < 0 || k >= blocks.len() {
        None
    } else if !valid_config(blocks[k].configuration) {
        Some(blocks[k].id@)
    } else {
        first_invalid(blocks, k + 1)
    }
}

/// The id of the first block at or after `k` whose id an earlier block has.
pub open spec fn first_duplicate(blocks: Seq<ModelDefBlock>, k: int) -> Option<Seq<char>>
    decreases blocks.len() - k,
{
    if k < 0 || k >= blocks.len() {
        None
    } else if position(block_ids(blocks), blocks[k].id@, 0) != Some(k) {
        Some(blocks[k].id@)
    } else {
        first_duplicate(blocks, k + 1)
    }
}

/// Why a connection's source names no declared output port, if it does not.
pub open spec fn source_fault(blocks: Seq<ModelDefBlock>, from: Endpoint) -> Option<BuildFault> {
    match position(block_ids(blocks), from.0, 0) {
        None => Some(BuildFault::UnknownBlockReference(from.0)),
        Some(fb) => match position(output_names(blocks[fb].configuration), from.1, 0) {
            None => Some(BuildFault::UnknownPortReference(from.0, from.1)),
            Some(_) => None,
        },
    }
}

/// The fault of the first connection at or after `k` whose source does not
/// resolve, whether or not it has targets.
pub open spec fn first_bad_source(
    blocks: Seq<ModelDefBlock>,
    conns: Seq<ModelDefConnection>,
    k: int,
) -> Option<BuildFault>
    decreases conns.len() - k,
{
    if k < 0 || k >= conns.len() {
        None
    } else {
        match source_fault(blocks, conns[k].from@) {
            Some(f) => Some(f),
            None => first_bad_source(blocks, conns, k + 1),
        }
    }
}

/// What building a graph definition gives: the configuration of every block
/// is checked first, in order, then that no id repeats, then the source of
/// every connection, then
/// each (source, target) pair is resolved.
pub open spec fn build_outcome(def: ModelDef) -> Result<Seq<Link>, BuildFault> {
    match first_invalid(def.blocks@, 0) {
        Some(id) => Err(BuildFault::InvalidConfiguration(id)),
        None => match first_duplicate(def.blocks@, 0) {
            Some(id) => Err(BuildFault::DuplicateBlockId(id)),
            None => match first_bad_source(def.blocks@, def.connections@, 0) {
                Some(f) => Err(f),
                None => wiring(def.blocks@, endpoint_pairs(def.connections@)),
            },
        },
    }
}

pub fn declared_inputs(c: &ModelDefBlockConfig) -> (r: Vec<String>)
    ensures
        r@.map_values(|s: String| s@) == input_names(*c),
{
    let r = match c {
        ModelDefBlockConfig::EventGenerator(_) => Vec::new(),
        ModelDefBlockConfig::LoggingSink => vec!["in".to_owned()],
    };
    assert(r@.map_values(|s: String| s@) =~= input_names(*c));
    r
}

pub fn declared_outputs(c: &ModelDefBlockConfig) -> (r: Vec<String>)
    ensures
        r@.map_values(|s: String| s@) == output_names(*c),
{
    let r = match c {
        ModelDefBlockConfig::EventGenerator(_) => vec!["out".to_owned()],
        ModelDefBlockConfig::LoggingSink => Vec::new(),
    };
    assert(r@.map_values(|s: String| s@) =~= output_names(*c));
    r
}

fn find_name(names: &Vec<String>, name: &String) -> (r: Option<usize>)
    ensures
        match r {
            Some(i) => i < names@.len() && position(names@.map_values(|s: String| s@), name@, 0) == Some(i as int),
            None => position(names@.map_values(|s: String| s@), name@, 0) is None,
        },
{
    let ghost view = names@.map_values(|s: String| s@);
    let mut i: usize = 0;
    while i < names.len()
        invariant
            i <= names@.len(),
            view == names@.map_values(|s: String| s@),
            position(view, name@, 0) == position(view, name@, i as int),
        decreases names@.len() - i,
    {
        if names[i] == *name {
            return Some(i);
        }
        i = i + 1;
    }
    None
}

fn find_block(blocks: &Vec<ModelDefBlock>, id: &String) -> (r: Option<usize>)
    ensures
        match r {
            Some(i) => i < blocks@.len() && position(block_ids(blocks@), id@, 0) == Some(i as int),
            None => position(block_ids(blocks@), id@, 0) is None,
        },
{
    let ghost view = block_ids(blocks@);
    let mut i: usize = 0;
    while i < blocks.len()
        invariant
            i <= blocks@.len(),
            view == block_ids(blocks@),
            position(view, id@, 0) == position(view, id@, i as int),
        decreases blocks@.len() - i,
    {
        if blocks[i].id == *id {
            return Some(i);
        }
        i = i + 1;
    }
    None
}

fn is_targeted(links: &Vec<Link>, b: usize, p: usize) -> (r: bool)
    ensures
        r == targeted(links@, b as int, p as int),
{
    let mut k: usize = 0;
    while k < links.len()
        invariant
            k <= links@.len(),
            forall|j: int| 0 <= j < k ==> !(links@[j].to_block == b && links@[j].to_port == p),
        decreases links@.len() - k,
    {
        if links[k].to_block == b && links[k].to_port == p {
            return true;
        }
        k = k + 1;
    }
    false
}

pub open spec fn link_result_view(r: Result<Link, BuildError>) -> Result<Link, BuildFault> {
    match r {
        Ok(l) => Ok(l),
        Err(e) => Err(e@),
    }
}

fn resolve_link(
    blocks: &Vec<ModelDefBlock>,
    from: &ModelDefConnectionPort,
    to: &ModelDefConnectionPort,
    links: &Vec<Link>,
) -> (r: Result<Link, BuildError>)
    ensures
        link_result_view(r) == resolve(blocks@, (from@, to@), links@),
{
    let fb = match find_block(blocks, &from.block) {
        Some(i) => i,
        None => {
            return Err(BuildError::UnknownBlockReference { block: from.block.clone() });
        },
    };
    let fp = match find_name(&declared_outputs(&blocks[fb].configuration), &from.port) {
        Some(i) => i,
        None => {
            return Err(
                BuildError::UnknownPortReference {
                    block: from.block.clone(),
                    port: from.port.clone(),
                },
            );
        },
    };
    let tb = match find_block(blocks, &to.block) {
        Some(i) => i,
        None => {
            return Err(BuildError::UnknownBlockReference { block: to.block.clone() });
        },
    };
    let tp = match find_name(&declared_inputs(&blocks[tb].configuration), &to.port) {
        Some(i) => i,
        None => {
            return Err(
                BuildError::UnknownPortReference { block: to.block.clone(), port: to.port.clone() },
            );
        },
    };
    if is_targeted(links, tb, tp) {
        return Err(BuildError::PortAlreadyBound { block: to.block.clone(), port: to.port.clone() });
    }
    Ok(Link { from_block: fb, from_port: fp, to_block: tb, to_port: tp })
}

fn check_source(blocks: &Vec<ModelDefBlock>, from: &ModelDefConnectionPort) -> (r: Option<
    BuildError,
>)
    ensures
        match r {
            Some(e) => source_fault(blocks@, from@) == Some(e@),
            None => source_fault(blocks@, from@) is None,
        },
{
    let fb = match find_block(blocks, &from.block) {
        Some(i) => i,
        None => {
            return Some(BuildError::UnknownBlockReference { block: from.block.clone() });
        },
    };
    match find_name(&declared_outputs(&blocks[fb].configuration), &from.port) {
        Some(_) => None,
        None => Some(
            BuildError::UnknownPortReference { block: from.block.clone(), port: from.port.clone() },
        ),
    }
}

/// Checks every block's configuration, that block ids are unique, then
/// every connection's source, then
/// resolves every connection target in order into a link; fails with the
/// first problem found.
pub fn plan_links(def: &ModelDef) -> (r: Result<Vec<Link>, BuildError>)
    ensures
        match r {
            Ok(links) => build_outcome(*def) == Ok::<Seq<Link>, BuildFault>(links@),
            Err(e) => build_outcome(*def) == Err::<Seq<Link>, BuildFault>(e@),
        },
{
    let mut b: usize = 0;
    while b < def.blocks.len()
        invariant
            b <= def.blocks@.len(),
            first_invalid(def.blocks@, 0) == first_invalid(def.blocks@, b as int),
        decreases def.blocks@.len() - b,
    {
        if !valid_frequency(&def.blocks[b].configuration) {
            return Err(BuildError::InvalidConfiguration { block: def.blocks[b].id.clone() });
        }
        b = b + 1;
    }
    let ghost blocks = def.blocks@;
    let ghost conns = def.connections@;
    let mut d: usize = 0;
    while d < def.blocks.len()
        invariant
            d <= blocks.len(),
            blocks == def.blocks@,
            first_invalid(blocks, 0) is None,
            first_duplicate(blocks, 0) == first_duplicate(blocks, d as int),
        decreases blocks.len() - d,
    {
        match find_block(&def.blocks, &def.blocks[d].id) {
            Some(i) => {
                if i != d {
                    return Err(BuildError::DuplicateBlockId { block: def.blocks[d].id.clone() });
                }
            },
            None => {
                assert(block_ids(blocks)[d as int] == blocks[d as int].id@);
                return Err(BuildError::DuplicateBlockId { block: def.blocks[d].id.clone() });
            },
        }
        d = d + 1;
    }
    let mut c: usize = 0;
    while c < def.connections.len()
        invariant
            c <= conns.len(),
            blocks == def.blocks@,
            conns == def.connections@,
            first_invalid(blocks, 0) is None,
            first_duplicate(blocks, 0) is None,
            first_bad_source(blocks, conns, 0) == first_bad_source(blocks, conns, c as int),
        decreases conns.len() - c,
    {
        if let Some(e) = check_source(&def.blocks, &def.connections[c].from) {
            return Err(e);
        }
        c = c + 1;
    }
    let mut links: Vec<Link> = Vec::new();
    let mut c: usize = 0;
    while c < def.connections.len()
        invariant
            c <= conns.len(),
            blocks == def.blocks@,
            conns == def.connections@,
            first_invalid(blocks, 0) is None,
            first_duplicate(blocks, 0) is None,
            first_bad_source(blocks, conns, 0) is None,
            wiring(blocks, endpoint_pairs(conns.take(c as int))) == Ok::<Seq<Link>, BuildFault>(
                links@,
            ),
        decreases conns.len() - c,
    {
        let conn = &def.connections[c];
        let ghost done = endpoint_pairs(conns.take(c as int));
        let mut t: usize = 0;
        while t < conn.to.len()
            invariant
                c < conns.len(),
                *conn == conns[c as int],
                t <= conn.to@.len(),
                blocks == def.blocks@,
                done == endpoint_pairs(conns.take(c as int)),
                conns == def.connections@,
                first_invalid(blocks, 0) is None,
                first_duplicate(blocks, 0) is None,
                first_bad_source(blocks, conns, 0) is None,
                wiring(blocks, done + targets_of(*conn).take(t as int)) == Ok::<
                    Seq<Link>,
                    BuildFault,
                >(links@),
            decreases conn.to@.len() - t,
        {
            let ghost before = done + targets_of(*conn).take(t as int);
            let ghost after = done + targets_of(*conn).take(t + 1);
            assert(after.drop_last() =~= before);
            assert(after.last() == (conn.from@, conn.to@[t as int]@));
            match resolve_link(&def.blocks, &conn.from, &conn.to[t], &links) {
                Ok(l) => {
                    links.push(l);
                },
                Err(e) => {
                    proof {
                        let whole = endpoint_pairs(conns.take(c + 1));
                        assert(conns.take(c + 1).drop_last() =~= conns.take(c as int));
                        assert(whole.take(after.len() as int) =~= after);
                        lemma_pairs_prefix(conns, c + 1);
                        let full = endpoint_pairs(conns);
                        assert(full.take(after.len() as int) =~= after);
                        lemma_wiring_err_prefix(blocks, after, full);
                    }
                    return Err(e);
                },
            }
            t = t + 1;
        }
        proof {
            assert(conns.take(c + 1).drop_last() =~= conns.take(c as int));
            assert(targets_of(*conn).take(t as int) =~= targets_of(*conn));
        }
        c = c + 1;
    }
    assert(conns.take(c as int) =~= conns);
    Ok(links)
}

fn valid_frequency(c: &ModelDefBlockConfig) -> (r: bool)
    ensures
        r == valid_config(*c),
{
    match c {
        ModelDefBlockConfig::EventGenerator(g) => 1 <= g.frequency_millihertz && g.frequency_millihertz <= NANOS_PER_KILOSECOND,
        ModelDefBlockConfig::LoggingSink => true,
    }
}

proof fn lemma_pairs_prefix(conns: Seq<ModelDefConnection>, k: int)
    requires
        0 <= k <= conns.len(),
    ensures
        endpoint_pairs(conns.take(k)).len() <= endpoint_pairs(conns).len(),
        endpoint_pairs(conns).take(endpoint_pairs(conns.take(k)).len() as int) == endpoint_pairs(
            conns.take(k),
        ),
    decreases conns.len(),
{
    if k == conns.len() {
        assert(conns.take(k) =~= conns);
        assert(endpoint_pairs(conns).take(endpoint_pairs(conns).len() as int) =~= endpoint_pairs(
            conns,
        ));
    } else {
        let rest = conns.drop_last();
        assert(rest.take(k) =~= conns.take(k));
        lemma_pairs_prefix(rest, k);
        let p = endpoint_pairs(conns.take(k));
        assert(endpoint_pairs(conns).take(p.len() as int) =~= endpoint_pairs(rest).take(
            p.len() as int,
        ));
    }
}

/// Once a prefix of the pairs fails, every extension fails the same way.
proof fn lemma_wiring_err_prefix(
    blocks: Seq<ModelDefBlock>,
    p: Seq<(Endpoint, Endpoint)>,
    full: Seq<(Endpoint, Endpoint)>,
)
    requires
        p.len() <= full.len(),
        full.take(p.len() as int) == p,
        wiring(blocks, p) is Err,
    ensures
        wiring(blocks, full) == wiring(blocks, p),
    decreases full.len(),
{
    if p.len() == full.len() {
        assert(full =~= p);
    } else {
        assert(full.drop_last().take(p.len() as int) =~= p);
        lemma_wiring_err_prefix(blocks, p, full.drop_last());
    }
}

/// Whether `l` is what `pair` names: its source and target blocks and ports.
pub open spec fn resolves_to(blocks: Seq<ModelDefBlock>, pair: (Endpoint, Endpoint), l: Link) -> bool {
    &&& position(block_ids(blocks), pair.0.0, 0) == Some(l.from_block as int)
    &&& position(output_names(blocks[l.from_block as int].configuration), pair.0.1, 0) == Some(
        l.from_port as int,
    )
    &&& position(block_ids(blocks), pair.1.0, 0) == Some(l.to_block as int)
    &&& position(input_names(blocks[l.to_block as int].configuration), pair.1.1, 0) == Some(
        l.to_port as int,
    )
}

pub proof fn lemma_position_found(names: Seq<Seq<char>>, name: Seq<char>, k: int)
    requires
        position(names, name, k) is Some,
    ensures
        k <= position(names, name, k)->0 < names.len(),
        names[position(names, name, k)->0] == name,
    decreases names.len() - k,
{
    if names[k] != name {
        lemma_position_found(names, name, k + 1);
    }
}

/// A successful wiring holds one link per pair, in order, each naming what
/// its pair names, and no two links share a target.
pub proof fn lemma_wiring_ok(blocks: Seq<ModelDefBlock>, pairs: Seq<(Endpoint, Endpoint)>)
    requires
        blocks.len() <= usize::MAX,
        wiring(blocks, pairs) is Ok,
    ensures
        ({
            let links = wiring(blocks, pairs)->Ok_0;
            &&& links.len() == pairs.len()
            &&& forall|k: int| 0 <= k < links.len() ==> resolves_to(blocks, #[trigger] pairs[k], links[k])
            &&& forall|j: int, k: int|
                0 <= j < k < links.len() ==> !(links[j].to_block == links[k].to_block
                    && links[j].to_port == links[k].to_port)
        }),
    decreases pairs.len(),
{
    if pairs.len() > 0 {
        let rest = pairs.drop_last();
        lemma_wiring_ok(blocks, rest);
        let prev = wiring(blocks, rest)->Ok_0;
        let from = pairs.last().0;
        let to = pairs.last().1;
        let fb = position(block_ids(blocks), from.0, 0)->0;
        let tb = position(block_ids(blocks), to.0, 0)->0;
        lemma_position_found(block_ids(blocks), from.0, 0);
        lemma_position_found(block_ids(blocks), to.0, 0);
        lemma_position_found(output_names(blocks[fb].configuration), from.1, 0);
        lemma_position_found(input_names(blocks[tb].configuration), to.1, 0);
        let links = wiring(blocks, pairs)->Ok_0;
        assert forall|k: int| 0 <= k < links.len() implies resolves_to(blocks, #[trigger] pairs[k], links[k]) by {
            assert(links == prev.push(resolve(blocks, pairs.last(), prev)->Ok_0));
            if k < prev.len() {
                assert(pairs[k] == rest[k]);
                assert(links[k] == prev[k]);
                assert(resolves_to(blocks, rest[k], prev[k]));
            } else {
                assert(pairs[k] == pairs.last());
            }
        }
    }
}

/// A graph whose connections target one input port twice is not built.
pub proof fn lemma_duplicate_target_rejected(def: ModelDef, i: int, j: int)
    requires
        def.blocks@.len() <= usize::MAX,
        0 <= i < j < endpoint_pairs(def.connections@).len(),
        endpoint_pairs(def.connections@)[i].1 == endpoint_pairs(def.connections@)[j].1,
    ensures
        build_outcome(def) is Err,
{
    let pairs = endpoint_pairs(def.connections@);
    if first_invalid(def.blocks@, 0) is None && first_duplicate(def.blocks@, 0) is None && first_bad_source(def.blocks@, def.connections@, 0) is None && wiring(def.blocks@, pairs) is Ok {
        lemma_wiring_ok(def.blocks@, pairs);
        assert(resolves_to(def.blocks@, pairs[i], wiring(def.blocks@, pairs)->Ok_0[i]));
        assert(resolves_to(def.blocks@, pairs[j], wiring(def.blocks@, pairs)->Ok_0[j]));
    }
}

/// A graph whose connections name a block id that it does not hold is not
/// built.
pub proof fn lemma_unknown_block_rejected(def: ModelDef, i: int, id: Seq<char>)
    requires
        def.blocks@.len() <= usize::MAX,
        0 <= i < endpoint_pairs(def.connections@).len(),
        endpoint_pairs(def.connections@)[i].0.0 == id || endpoint_pairs(def.connections@)[i].1.0
            == id,
        !block_ids(def.blocks@).contains(id),
    ensures
        build_outcome(def) is Err,
{
    let pairs = endpoint_pairs(def.connections@);
    if first_invalid(def.blocks@, 0) is None && first_duplicate(def.blocks@, 0) is None && first_bad_source(def.blocks@, def.connections@, 0) is None && wiring(def.blocks@, pairs) is Ok {
        lemma_wiring_ok(def.blocks@, pairs);
        let l = wiring(def.blocks@, pairs)->Ok_0[i];
        assert(resolves_to(def.blocks@, pairs[i], l));
        lemma_position_found(block_ids(def.blocks@), pairs[i].0.0, 0);
        lemma_position_found(block_ids(def.blocks@), pairs[i].1.0, 0);
    }
}

proof fn lemma_sources_resolve(blocks: Seq<ModelDefBlock>, conns: Seq<ModelDefConnection>, k: int)
    requires
        0 <= k,
        first_bad_source(blocks, conns, k) is None,
    ensures
        forall|i: int| k <= i < conns.len() ==> source_fault(blocks, #[trigger] conns[i].from@) is None,
    decreases conns.len() - k,
{
    if k < conns.len() {
        lemma_sources_resolve(blocks, conns, k + 1);
    }
}

/// A graph with a connection whose source names a block id that the graph
/// does not hold is not built, even when that connection has no targets.
pub proof fn lemma_unknown_source_rejected(def: ModelDef, c: int)
    requires
        0 <= c < def.connections@.len(),
        !block_ids(def.blocks@).contains(def.connections@[c].from.block@),
    ensures
        build_outcome(def) is Err,
{
    if first_invalid(def.blocks@, 0) is None && first_duplicate(def.blocks@, 0) is None && first_bad_source(def.blocks@, def.connections@, 0) is None {
        lemma_sources_resolve(def.blocks@, def.connections@, 0);
        let from = def.connections@[c].from@;
        assert(source_fault(def.blocks@, from) is None);
        lemma_position_found(block_ids(def.blocks@), from.0, 0);
    }
}

} // verus!
