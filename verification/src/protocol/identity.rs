//! Identities of cells, groups and messages in a federation.
use crate::text;
use crate::wire;
use vstd::prelude::*;
use vstd::string::*;

verus! {

/// A cell of the federation.
#[derive(Clone, Copy, Debug, Default, PartialEq, Eq, PartialOrd, Ord, Hash, Structural)]
pub struct CellId(pub u64);

impl CellId {
    /// The first cell.
    pub fn bootstrap() -> (r: Self)
        ensures
            r == CellId(1),
    {
        CellId(1)
    }

    /// A cell ID, which is not zero.
    pub fn new(value: u64) -> (r: Result<Self, &'static str>)
        ensures
            match r {
                Ok(c) => value != 0 && c == CellId(value),
                Err(m) => value == 0 && m@ == "cell ID must be non-zero"@,
            },
    {
        if value != 0 {
            Ok(CellId(value))
        } else {
            Err("cell ID must be non-zero")
        }
    }

    /// The ID in decimal.
    pub fn to_text(&self) -> (r: String)
        ensures
            r@ == text::dec(self.0 as nat),
    {
        text::decimal(self.0)
    }
}

/// A group by the cell in which it was created.
#[derive(Clone, Copy, Debug, Default, PartialEq, Eq, PartialOrd, Ord, Hash, Structural)]
pub struct GlobalGroupId {
    pub cell: CellId,
    pub local: u64,
}

/// A collision-free address for every Raft group in a federation.
///
/// Partition IDs keep the cell in which they were created even after their
/// mutable home cell changes. Control-plane groups use explicit variants so
/// they never rely on sentinel local IDs such as `0` or `u64::MAX`.
#[derive(Clone, Copy, Debug, PartialEq, Eq, PartialOrd, Ord, Hash, Structural)]
pub enum GroupKey {
    Root,
    Catalog { shard: u64 },
    CellMetadata { cell: CellId },
    Partition(GlobalGroupId),
}

impl GlobalGroupId {
    /// A group ID, whose local part is not zero.
    pub fn new(cell: CellId, local: u64) -> (r: Result<Self, &'static str>)
        ensures
            match r {
                Ok(g) => local != 0 && g == (GlobalGroupId { cell, local }),
                Err(m) => local == 0 && m@ == "local group ID must be non-zero"@,
            },
    {
        if local == 0 {
            return Err("local group ID must be non-zero");
        }
        Ok(GlobalGroupId { cell, local })
    }

    /// The cell and the local ID around a colon.
    pub fn to_text(&self) -> (r: String)
        ensures
            r@ == text::dec(self.cell.0 as nat) + ":"@ + text::dec(self.local as nat),
    {
        let mut r = text::decimal(self.cell.0);
        r.append(":");
        r.append(text::decimal(self.local).as_str());
        r
    }
}

impl GroupKey {
    /// Whether no ID in the key is zero.
    pub open spec fn nonzero(self) -> bool {
        match self {
            GroupKey::Root => true,
            GroupKey::Catalog { shard } => shard != 0,
            GroupKey::CellMetadata { cell } => cell.0 != 0,
            GroupKey::Partition(id) => id.cell.0 != 0 && id.local != 0,
        }
    }

    /// The key as a path component.
    pub open spec fn component(self) -> Seq<char> {
        match self {
            GroupKey::Root => "root"@,
            GroupKey::Catalog { shard } => "catalog-"@ + text::dec(shard as nat),
            GroupKey::CellMetadata { cell } => "cell-"@ + text::dec(cell.0 as nat) + "-meta"@,
            GroupKey::Partition(id) => "partition-"@ + text::dec(id.cell.0 as nat) + "-"@
                + text::dec(id.local as nat),
        }
    }

    /// The key of a catalog shard, whose ID is not zero.
    pub fn catalog(shard: u64) -> (r: Result<Self, &'static str>)
        ensures
            match r {
                Ok(k) => shard != 0 && k == (GroupKey::Catalog { shard }),
                Err(m) => shard == 0 && m@ == "catalog shard ID must be non-zero"@,
            },
    {
        if shard != 0 {
            Ok(GroupKey::Catalog { shard })
        } else {
            Err("catalog shard ID must be non-zero")
        }
    }

    /// The key of the metadata group of a cell.
    pub fn cell_metadata(cell: CellId) -> (r: Self)
        ensures
            r == (GroupKey::CellMetadata { cell }),
    {
        GroupKey::CellMetadata { cell }
    }

    /// The key of a partition, whose local ID is not zero.
    pub fn partition(cell: CellId, local: u64) -> (r: Result<Self, &'static str>)
        ensures
            match r {
                Ok(k) => local != 0 && k == GroupKey::Partition(GlobalGroupId { cell, local }),
                Err(m) => local == 0 && m@ == "local group ID must be non-zero"@,
            },
    {
        match GlobalGroupId::new(cell, local) {
            Ok(id) => Ok(GroupKey::Partition(id)),
            Err(m) => Err(m),
        }
    }

    /// The partition that the key addresses.
    pub fn partition_id(self) -> (r: Option<GlobalGroupId>)
        ensures
            r == (match self {
                GroupKey::Partition(id) => Some(id),
                _ => None,
            }),
    {
        match self {
            GroupKey::Partition(id) => Some(id),
            _ => None,
        }
    }

    /// The key as a path component.
    pub fn storage_component(self) -> (r: String)
        ensures
            r@ == self.component(),
    {
        match self {
            GroupKey::Root => "root".to_owned(),
            GroupKey::Catalog { shard } => {
                let mut r = "catalog-".to_owned();
                r.append(text::decimal(shard).as_str());
                r
            },
            GroupKey::CellMetadata { cell } => {
                let mut r = "cell-".to_owned();
                r.append(text::decimal(cell.0).as_str());
                r.append("-meta");
                r
            },
            GroupKey::Partition(id) => {
                let mut r = "partition-".to_owned();
                r.append(text::decimal(id.cell.0).as_str());
                r.append("-");
                r.append(text::decimal(id.local).as_str());
                r
            },
        }
    }

    /// Parses a path component.
    pub fn parse(value: &str) -> (r: Result<Self, &'static str>)
        ensures
            match r {
                Ok(k) => parsed_key(value@) == Ok::<GroupKey, Seq<char>>(k),
                Err(m) => parsed_key(value@) == Err::<GroupKey, Seq<char>>(m@),
            },
    {
        if text::str_eq(value, "root") {
            return Ok(GroupKey::Root);
        }
        if let Some(shard) = text::strip_prefix(value, "catalog-") {
            return match parse_nonzero(shard.as_str(), "invalid catalog group key") {
                Ok(shard) => GroupKey::catalog(shard),
                Err(m) => Err(m),
            };
        }
        if let Some(rest) = text::strip_prefix(value, "cell-") {
            if let Some(cell) = text::strip_suffix(rest.as_str(), "-meta") {
                return match parse_nonzero(cell.as_str(), "invalid Cell metadata group key") {
                    Ok(cell) => Ok(GroupKey::cell_metadata(CellId(cell))),
                    Err(m) => Err(m),
                };
            }
        }
        if let Some(rest) = text::strip_prefix(value, "partition-") {
            return match text::split_once(rest.as_str(), '-') {
                None => Err("invalid partition group key"),
                Some((cell, local)) => match parse_nonzero(
                    cell.as_str(),
                    "invalid partition Cell ID",
                ) {
                    Err(m) => Err(m),
                    Ok(cell) => match parse_nonzero(
                        local.as_str(),
                        "invalid partition local group ID",
                    ) {
                        Err(m) => Err(m),
                        Ok(local) => GroupKey::partition(CellId(cell), local),
                    },
                },
            };
        }
        Err("unknown group key")
    }
}

/// The number that a numeral denotes, where it is not zero.
pub open spec fn nonzero_value(s: Seq<char>) -> Option<u64> {
    match text::parsed_unsigned(s, 10, u64::MAX as nat) {
        Some(n) => if n != 0 {
            Some(n as u64)
        } else {
            None
        },
        None => None,
    }
}

/// The key that a path component denotes.
pub open spec fn parsed_key(s: Seq<char>) -> Result<GroupKey, Seq<char>> {
    if s == "root"@ {
        Ok(GroupKey::Root)
    } else if let Some(shard) = text::after_prefix(s, "catalog-"@) {
        match nonzero_value(shard) {
            Some(shard) => Ok(GroupKey::Catalog { shard }),
            None => Err("invalid catalog group key"@),
        }
    } else if text::starts(s, "cell-"@) && text::ends(s.skip("cell-"@.len() as int), "-meta"@) {
        let rest = s.skip("cell-"@.len() as int);
        match nonzero_value(rest.take(rest.len() - "-meta"@.len())) {
            Some(cell) => Ok(GroupKey::CellMetadata { cell: CellId(cell) }),
            None => Err("invalid Cell metadata group key"@),
        }
    } else if let Some(rest) = text::after_prefix(s, "partition-"@) {
        match text::split_first(rest, '-') {
            None => Err("invalid partition group key"@),
            Some((cell, local)) => match nonzero_value(cell) {
                None => Err("invalid partition Cell ID"@),
                Some(cell) => match nonzero_value(local) {
                    None => Err("invalid partition local group ID"@),
                    Some(local) => Ok(
                        GroupKey::Partition(GlobalGroupId { cell: CellId(cell), local }),
                    ),
                },
            },
        }
    } else {
        Err("unknown group key"@)
    }
}

/// Parses a number that is not zero.
fn parse_nonzero(value: &str, error: &'static str) -> (r: Result<u64, &'static str>)
    ensures
        match r {
            Ok(n) => n != 0 && nonzero_value(value@) == Some(n),
            Err(m) => nonzero_value(value@) is None && m@ == error@,
        },
{
    match text::parse_decimal(value, u64::MAX) {
        Some(n) => if n != 0 {
            Ok(n)
        } else {
            Err(error)
        },
        None => Err(error),
    }
}

proof fn lemma_prefix_of_sum(p: Seq<char>, q: Seq<char>)
    ensures
        text::starts(p + q, p),
        (p + q).skip(p.len() as int) == q,
{
    assert((p + q).take(p.len() as int) =~= p);
    assert((p + q).skip(p.len() as int) =~= q);
}

proof fn lemma_not_prefix(s: Seq<char>, p: Seq<char>)
    requires
        s.len() > 1,
        p.len() > 1,
        s[0] != p[0] || s[1] != p[1],
    ensures
        !text::starts(s, p),
{
    if text::starts(s, p) {
        assert(s.take(p.len() as int)[0] == s[0]);
        assert(s.take(p.len() as int)[1] == s[1]);
    }
}

/// Parsing the path component of a key without zero IDs gives back the key.
pub proof fn law_group_key_round_trip(key: GroupKey)
    requires
        key.nonzero(),
    ensures
        parsed_key(key.component()) == Ok::<GroupKey, Seq<char>>(key),
{
    reveal_strlit("root");
    reveal_strlit("catalog-");
    reveal_strlit("cell-");
    reveal_strlit("-meta");
    reveal_strlit("partition-");
    reveal_strlit("-");
    let s = key.component();
    match key {
        GroupKey::Root => {},
        GroupKey::Catalog { shard } => {
            text::lemma_dec_round_trip(shard as nat, u64::MAX as nat);
            lemma_prefix_of_sum("catalog-"@, text::dec(shard as nat));
            assert(s[0] == 'c');
            assert("root"@[0] == 'r');
        },
        GroupKey::CellMetadata { cell } => {
            let n = text::dec(cell.0 as nat);
            text::lemma_dec_round_trip(cell.0 as nat, u64::MAX as nat);
            assert(s =~= "cell-"@ + (n + "-meta"@));
            lemma_prefix_of_sum("cell-"@, n + "-meta"@);
            let rest = n + "-meta"@;
            assert(rest.skip(rest.len() - 5) =~= "-meta"@);
            assert(rest.take(rest.len() - 5) =~= n);
            assert(s[0] == 'c');
            assert(s[1] == 'e');
            assert("root"@[0] == 'r');
            assert("catalog-"@[1] == 'a');
            lemma_not_prefix(s, "catalog-"@);
        },
        GroupKey::Partition(id) => {
            let c = text::dec(id.cell.0 as nat);
            let l = text::dec(id.local as nat);
            text::lemma_dec_round_trip(id.cell.0 as nat, u64::MAX as nat);
            text::lemma_dec_round_trip(id.local as nat, u64::MAX as nat);
            text::lemma_dec_value(id.cell.0 as nat);
            assert(s =~= "partition-"@ + (c + "-"@ + l));
            let rest = c + "-"@ + l;
            lemma_prefix_of_sum("partition-"@, rest);
            assert(s[0] == 'p');
            assert("root"@[0] == 'r');
            assert("catalog-"@[0] == 'c');
            assert("cell-"@[0] == 'c');
            lemma_not_prefix(s, "catalog-"@);
            lemma_not_prefix(s, "cell-"@);
            assert(rest[c.len() as int] == '-');
            assert forall|j: int| 0 <= j < c.len() implies rest[j] != '-' by {
                assert(rest[j] == c[j]);
                assert('0' <= c[j]);
            }
            text::lemma_first_index_is(rest, '-', c.len() as int);
            assert(rest.take(c.len() as int) =~= c);
            assert(rest.skip(c.len() as int + 1) =~= l);
        },
    }
}

proof fn lemma_digits_end(a: Seq<char>, x: Seq<char>, b: Seq<char>, y: Seq<char>)
    requires
        !a.contains('-'),
        !b.contains('-'),
        a + seq!['-'] + x == b + seq!['-'] + y,
    ensures
        a == b,
        x == y,
{
    let s = a + seq!['-'] + x;
    assert(s[a.len() as int] == '-');
    assert(s[b.len() as int] == '-');
    if a.len() < b.len() {
        assert(b[a.len() as int] == '-');
        assert(b.contains('-'));
    }
    if b.len() < a.len() {
        assert(a[b.len() as int] == '-');
        assert(a.contains('-'));
    }
    assert(s.take(a.len() as int) =~= a);
    assert(s.take(a.len() as int) =~= b);
    assert(s.skip(a.len() as int + 1) =~= x);
    assert(s.skip(a.len() as int + 1) =~= y);
}

/// Two different keys have different path components.
pub proof fn law_group_keys_do_not_collide(a: GroupKey, b: GroupKey)
    requires
        a.component() == b.component(),
    ensures
        a == b,
{
    reveal_strlit("root");
    reveal_strlit("catalog-");
    reveal_strlit("cell-");
    reveal_strlit("-meta");
    reveal_strlit("partition-");
    reveal_strlit("-");
    let s = a.component();
    match (a, b) {
        (GroupKey::Catalog { shard: x }, GroupKey::Catalog { shard: y }) => {
            lemma_prefix_of_sum("catalog-"@, text::dec(x as nat));
            lemma_prefix_of_sum("catalog-"@, text::dec(y as nat));
            text::lemma_dec_injective(x as nat, y as nat);
        },
        (GroupKey::CellMetadata { cell: x }, GroupKey::CellMetadata { cell: y }) => {
            let m = text::dec(x.0 as nat);
            let n = text::dec(y.0 as nat);
            assert(s.subrange(5, s.len() - 5) =~= m);
            assert(s.subrange(5, s.len() - 5) =~= n);
            text::lemma_dec_injective(x.0 as nat, y.0 as nat);
        },
        (GroupKey::Partition(x), GroupKey::Partition(y)) => {
            text::lemma_dec_value(x.cell.0 as nat);
            text::lemma_dec_value(y.cell.0 as nat);
            let c = text::dec(x.cell.0 as nat);
            let d = text::dec(y.cell.0 as nat);
            let m = text::dec(x.local as nat);
            let n = text::dec(y.local as nat);
            assert(s =~= "partition-"@ + (c + seq!['-'] + m));
            assert(s =~= "partition-"@ + (d + seq!['-'] + n));
            lemma_prefix_of_sum("partition-"@, c + seq!['-'] + m);
            lemma_prefix_of_sum("partition-"@, d + seq!['-'] + n);
            lemma_digits_end(c, m, d, n);
            text::lemma_dec_injective(x.cell.0 as nat, y.cell.0 as nat);
            text::lemma_dec_injective(x.local as nat, y.local as nat);
        },
        _ => {
            assert(s[0] == b.component()[0]);
            assert(s[1] == b.component()[1]);
        },
    }
}

/// No path component of a key holds a path separator.
pub proof fn law_group_key_is_one_path_component(key: GroupKey)
    ensures
        !key.component().contains('/'),
{
    reveal_strlit("root");
    reveal_strlit("catalog-");
    reveal_strlit("cell-");
    reveal_strlit("-meta");
    reveal_strlit("partition-");
    reveal_strlit("-");
    let s = key.component();
    match key {
        GroupKey::Root => {},
        GroupKey::Catalog { shard } => {
            text::lemma_dec_value(shard as nat);
            let n = text::dec(shard as nat);
            assert forall|i: int| 0 <= i < s.len() implies s[i] != '/' by {
                if i >= 8 {
                    assert(s[i] == n[i - 8]);
                }
            }
        },
        GroupKey::CellMetadata { cell } => {
            text::lemma_dec_value(cell.0 as nat);
            let n = text::dec(cell.0 as nat);
            assert forall|i: int| 0 <= i < s.len() implies s[i] != '/' by {
                if 5 <= i < 5 + n.len() {
                    assert(s[i] == n[i - 5]);
                }
            }
        },
        GroupKey::Partition(id) => {
            text::lemma_dec_value(id.cell.0 as nat);
            text::lemma_dec_value(id.local as nat);
            let c = text::dec(id.cell.0 as nat);
            let l = text::dec(id.local as nat);
            assert forall|i: int| 0 <= i < s.len() implies s[i] != '/' by {
                if 10 <= i < 10 + c.len() {
                    assert(s[i] == c[i - 10]);
                } else if i > 10 + c.len() {
                    assert(s[i] == l[i - 11 - c.len()]);
                }
            }
        },
    }
}

/// A message by its group, its place in the log and the incarnation of the log.
#[derive(Clone, Copy, Debug, Default, PartialEq, Eq, PartialOrd, Ord, Hash, Structural)]
pub struct InternalMessageId {
    pub group: GlobalGroupId,
    pub log_index: u64,
    pub ordinal: u32,
    pub incarnation: u32,
}

/// The bytes of a message ID, field by field.
pub open spec fn message_id_bytes(id: InternalMessageId) -> Seq<u8> {
    wire::be(id.group.cell.0 as nat, 8) + wire::be(id.group.local as nat, 8) + wire::be(
        id.log_index as nat,
        8,
    ) + wire::be(id.ordinal as nat, 4) + wire::be(id.incarnation as nat, 4)
}

impl InternalMessageId {
    /// A message ID, whose log index and incarnation are not zero.
    pub fn new(group: GlobalGroupId, log_index: u64, ordinal: u32, incarnation: u32) -> (r: Result<
        Self,
        &'static str,
    >)
        ensures
            match r {
                Ok(id) => log_index != 0 && incarnation != 0 && id == (InternalMessageId {
                    group,
                    log_index,
                    ordinal,
                    incarnation,
                }),
                Err(m) => (log_index == 0 || incarnation == 0) && m@
                    == "message log index and incarnation must be non-zero"@,
            },
    {
        if log_index == 0 || incarnation == 0 {
            return Err("message log index and incarnation must be non-zero");
        }
        Ok(InternalMessageId { group, log_index, ordinal, incarnation })
    }

    /// The fields in big-endian order.
    pub fn to_be_bytes(self) -> (r: [u8; 32])
        ensures
            r@ == message_id_bytes(self),
    {
        let mut bytes: Vec<u8> = Vec::new();
        wire::push_be(&mut bytes, self.group.cell.0, 8);
        wire::push_be(&mut bytes, self.group.local, 8);
        wire::push_be(&mut bytes, self.log_index, 8);
        wire::push_be(&mut bytes, self.ordinal as u64, 4);
        wire::push_be(&mut bytes, self.incarnation as u64, 4);
        proof {
            wire::lemma_be_round_trip(self.group.cell.0 as nat, 8);
            wire::lemma_be_round_trip(self.group.local as nat, 8);
            wire::lemma_be_round_trip(self.log_index as nat, 8);
            wire::lemma_be_round_trip(self.ordinal as nat, 4);
            wire::lemma_be_round_trip(self.incarnation as nat, 4);
            assert(bytes@ =~= message_id_bytes(self));
        }
        let mut out: [u8; 32] = [0; 32];
        let mut i: usize = 0;
        while i < 32
            invariant
                i <= 32,
                bytes@.len() == 32,
                out@.len() == 32,
                forall|j: int| 0 <= j < i ==> out@[j] == bytes@[j],
            decreases 32 - i,
        {
            out[i] = bytes[i];
            i += 1;
        }
        assert(out@ =~= bytes@);
        out
    }
}

/// Two message IDs with the same bytes are the same ID: an ID is scoped by its
/// cell, group, log index, ordinal and incarnation.
pub proof fn law_message_ids_do_not_collide(a: InternalMessageId, b: InternalMessageId)
    requires
        message_id_bytes(a) == message_id_bytes(b),
    ensures
        a == b,
{
    wire::lemma_be_limits();
    let x = message_id_bytes(a);
    let y = message_id_bytes(b);
    wire::lemma_be_round_trip(a.group.cell.0 as nat, 8);
    wire::lemma_be_round_trip(a.group.local as nat, 8);
    wire::lemma_be_round_trip(a.log_index as nat, 8);
    wire::lemma_be_round_trip(a.ordinal as nat, 4);
    wire::lemma_be_round_trip(a.incarnation as nat, 4);
    wire::lemma_be_round_trip(b.group.cell.0 as nat, 8);
    wire::lemma_be_round_trip(b.group.local as nat, 8);
    wire::lemma_be_round_trip(b.log_index as nat, 8);
    wire::lemma_be_round_trip(b.ordinal as nat, 4);
    wire::lemma_be_round_trip(b.incarnation as nat, 4);
    assert(x.subrange(0, 8) =~= wire::be(a.group.cell.0 as nat, 8));
    assert(y.subrange(0, 8) =~= wire::be(b.group.cell.0 as nat, 8));
    assert(x.subrange(8, 16) =~= wire::be(a.group.local as nat, 8));
    assert(y.subrange(8, 16) =~= wire::be(b.group.local as nat, 8));
    assert(x.subrange(16, 24) =~= wire::be(a.log_index as nat, 8));
    assert(y.subrange(16, 24) =~= wire::be(b.log_index as nat, 8));
    assert(x.subrange(24, 28) =~= wire::be(a.ordinal as nat, 4));
    assert(y.subrange(24, 28) =~= wire::be(b.ordinal as nat, 4));
    assert(x.subrange(28, 32) =~= wire::be(a.incarnation as nat, 4));
    assert(y.subrange(28, 32) =~= wire::be(b.incarnation as nat, 4));
}

} // verus!
