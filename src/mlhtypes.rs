//! The kinds of nodes in the mailing-list graph, and sets of kinds.
use vstd::prelude::*;

verus! {

/// The kind of object an identifier names.
#[derive(Debug, Clone, Copy, PartialEq, Eq, Hash, Structural)]
pub enum NodeType {
    EmailBody,
    EmailMessage,
    Origin,
    MailingList,
    Patch,
    Person,
}

/// How many kinds there are.
pub const NUMBER_OF_TYPES: usize = 6;

/// The bits needed to store a kind as an integer.
pub const BITWIDTH: usize = 3;

/// The index of each kind, `0` to `5` in declaration order.
pub open spec fn kind_index(t: NodeType) -> u8 {
    match t {
        NodeType::EmailBody => 0,
        NodeType::EmailMessage => 1,
        NodeType::Origin => 2,
        NodeType::MailingList => 3,
        NodeType::Patch => 4,
        NodeType::Person => 5,
    }
}

/// The kind with index `i`, if any.
pub open spec fn type_of_index(i: u8) -> Option<NodeType> {
    if i == 0 {
        Some(NodeType::EmailBody)
    } else if i == 1 {
        Some(NodeType::EmailMessage)
    } else if i == 2 {
        Some(NodeType::Origin)
    } else if i == 3 {
        Some(NodeType::MailingList)
    } else if i == 4 {
        Some(NodeType::Patch)
    } else if i == 5 {
        Some(NodeType::Person)
    } else {
        None
    }
}

/// The three-letter name of each kind in an identifier.
pub open spec fn kind_name(t: NodeType) -> Seq<char> {
    match t {
        NodeType::EmailBody => seq!['e', 'm', 'b'],
        NodeType::EmailMessage => seq!['e', 'm', 'm'],
        NodeType::Origin => seq!['o', 'r', 'i'],
        NodeType::MailingList => seq!['m', 'l', 's'],
        NodeType::Patch => seq!['p', 't', 'c'],
        NodeType::Person => seq!['p', 'r', 's'],
    }
}

/// The kind named `s`, if any.
pub open spec fn kind_named(s: Seq<char>) -> Option<NodeType> {
    if s == kind_name(NodeType::EmailBody) {
        Some(NodeType::EmailBody)
    } else if s == kind_name(NodeType::EmailMessage) {
        Some(NodeType::EmailMessage)
    } else if s == kind_name(NodeType::Origin) {
        Some(NodeType::Origin)
    } else if s == kind_name(NodeType::MailingList) {
        Some(NodeType::MailingList)
    } else if s == kind_name(NodeType::Patch) {
        Some(NodeType::Patch)
    } else if s == kind_name(NodeType::Person) {
        Some(NodeType::Person)
    } else {
        None
    }
}

/// Every kind, in declaration order.
pub open spec fn all_types() -> Seq<NodeType> {
    seq![
        NodeType::EmailBody,
        NodeType::EmailMessage,
        NodeType::Origin,
        NodeType::MailingList,
        NodeType::Patch,
        NodeType::Person,
    ]
}

fn chars_equal(a: &Vec<char>, b: &str) -> (r: bool)
    ensures
        r == (a@ == b@),
{
    let bc = crate::text::chars_of(b);
    if a.len() != bc.len() {
        return false;
    }
    let mut i: usize = 0;
    while i < a.len()
        invariant
            a@.len() == bc@.len(),
            bc@ == b@,
            0 <= i <= a@.len(),
            forall|k: int| 0 <= k < i ==> a@[k] == bc@[k],
        decreases a@.len() - i,
    {
        if a[i] != bc[i] {
            return false;
        }
        i = i + 1;
    }
    assert(a@ =~= bc@);
    true
}

impl NodeType {
    /// The name of the kind in an identifier.
    pub fn to_str(&self) -> (r: &'static str)
        ensures
            r@ == kind_name(*self),
    {
        proof {
            reveal_strlit("emb");
            reveal_strlit("emm");
            reveal_strlit("ori");
            reveal_strlit("mls");
            reveal_strlit("ptc");
            reveal_strlit("prs");
        }
        match self {
            NodeType::EmailBody => "emb",
            NodeType::EmailMessage => "emm",
            NodeType::Origin => "ori",
            NodeType::MailingList => "mls",
            NodeType::Patch => "ptc",
            NodeType::Person => "prs",
        }
    }

    /// The index of the kind.
    pub fn to_u8(&self) -> (r: u8)
        ensures
            r == kind_index(*self),
    {
        match self {
            NodeType::EmailBody => 0,
            NodeType::EmailMessage => 1,
            NodeType::Origin => 2,
            NodeType::MailingList => 3,
            NodeType::Patch => 4,
            NodeType::Person => 5,
        }
    }

    /// The kind with index `value`, or `value` back when there is none.
    pub fn from_u8(value: u8) -> (r: Result<NodeType, u8>)
        ensures
            match type_of_index(value) {
                Some(t) => r == Ok::<NodeType, u8>(t),
                None => r == Err::<NodeType, u8>(value),
            },
    {
        match value {
            0 => Ok(NodeType::EmailBody),
            1 => Ok(NodeType::EmailMessage),
            2 => Ok(NodeType::Origin),
            3 => Ok(NodeType::MailingList),
            4 => Ok(NodeType::Patch),
            5 => Ok(NodeType::Person),
            _ => Err(value),
        }
    }

    /// The kind named `s`, or `s` back when there is none.
    pub fn parse(s: &str) -> (r: Result<NodeType, String>)
        ensures
            match kind_named(s@) {
                Some(t) => r == Ok::<NodeType, String>(t),
                None => r matches Err(e) && e@ == s@,
            },
    {
        let cs = crate::text::chars_of(s);
        proof {
            reveal_strlit("emb");
            reveal_strlit("emm");
            reveal_strlit("ori");
            reveal_strlit("mls");
            reveal_strlit("ptc");
            reveal_strlit("prs");
            assert("emb"@ =~= kind_name(NodeType::EmailBody));
            assert("emm"@ =~= kind_name(NodeType::EmailMessage));
            assert("ori"@ =~= kind_name(NodeType::Origin));
            assert("mls"@ =~= kind_name(NodeType::MailingList));
            assert("ptc"@ =~= kind_name(NodeType::Patch));
            assert("prs"@ =~= kind_name(NodeType::Person));
        }
        if chars_equal(&cs, "emb") {
            Ok(NodeType::EmailBody)
        } else if chars_equal(&cs, "emm") {
            Ok(NodeType::EmailMessage)
        } else if chars_equal(&cs, "ori") {
            Ok(NodeType::Origin)
        } else if chars_equal(&cs, "mls") {
            Ok(NodeType::MailingList)
        } else if chars_equal(&cs, "ptc") {
            Ok(NodeType::Patch)
        } else if chars_equal(&cs, "prs") {
            Ok(NodeType::Person)
        } else {
            Err(String::from_str(s))
        }
    }

    /// Every kind, in declaration order.
    pub fn all() -> (r: Vec<NodeType>)
        ensures
            r@ == all_types(),
    {
        let r = vec![
            NodeType::EmailBody,
            NodeType::EmailMessage,
            NodeType::Origin,
            NodeType::MailingList,
            NodeType::Patch,
            NodeType::Person,
        ];
        assert(r@ =~= all_types());
        r
    }
}

/// A set of kinds, one bit per kind index.
#[derive(Debug, PartialEq, Clone, Copy, Structural)]
pub struct NodeConstraint(pub u64);

/// Whether the bit of index `i` is set in `bits`.
pub open spec fn has_bit(bits: u64, i: u8) -> bool {
    bits & (1u64 << i) != 0
}

/// The kinds of index below `n` whose bit is set in `bits`, in index order.
pub open spec fn types_below(bits: u64, n: u8) -> Seq<NodeType>
    decreases n,
{
    if n == 0 {
        Seq::empty()
    } else {
        let prev = types_below(bits, (n - 1) as u8);
        if has_bit(bits, (n - 1) as u8) {
            prev.push(type_of_index((n - 1) as u8)->0)
        } else {
            prev
        }
    }
}

impl Default for NodeConstraint {
    /// Every kind.
    fn default() -> (r: Self)
        ensures
            r.0 == 0b111111,
    {
        NodeConstraint(0b111111)
    }
}

impl NodeConstraint {
    /// Whether `node_type` is in the set.
    pub fn matches(&self, node_type: NodeType) -> (r: bool)
        ensures
            r == has_bit(self.0, kind_index(node_type)),
    {
        let i = node_type.to_u8();
        self.0 & (1u64 << i) != 0
    }

    /// The kinds in the set, in index order.
    pub fn to_vec(&self) -> (r: Vec<NodeType>)
        ensures
            r@ == types_below(self.0, NUMBER_OF_TYPES as u8),
    {
        let mut r: Vec<NodeType> = Vec::new();
        let mut i: u8 = 0;
        while i < NUMBER_OF_TYPES as u8
            invariant
                0 <= i <= NUMBER_OF_TYPES,
                r@ == types_below(self.0, i),
            decreases NUMBER_OF_TYPES - i,
        {
            if self.0 & (1u64 << i) != 0 {
                match NodeType::from_u8(i) {
                    Ok(t) => r.push(t),
                    Err(_) => {},
                }
            }
            i = i + 1;
        }
        r
    }
}

/// The bits of the kinds named by `ts`, read left to right; the first name
/// that is no kind is the error.
pub open spec fn named_bits(ts: Seq<Seq<char>>) -> Result<u64, Seq<char>>
    decreases ts.len(),
{
    if ts.len() == 0 {
        Ok(0)
    } else {
        match named_bits(ts.drop_last()) {
            Err(e) => Err(e),
            Ok(b) => match kind_named(ts.last()) {
                None => Err(ts.last()),
                Some(t) => Ok(b | (1u64 << kind_index(t))),
            },
        }
    }
}

proof fn lemma_error_stays(ts: Seq<Seq<char>>, j: int, e: Seq<char>)
    requires
        0 <= j <= ts.len(),
        named_bits(ts.subrange(0, j)) == Err::<u64, Seq<char>>(e),
    ensures
        named_bits(ts) == Err::<u64, Seq<char>>(e),
    decreases ts.len() - j,
{
    if j < ts.len() {
        assert(ts.subrange(0, j + 1).drop_last() =~= ts.subrange(0, j));
        lemma_error_stays(ts, j + 1, e);
    } else {
        assert(ts.subrange(0, j) =~= ts);
    }
}

/// The kinds in alphabetical order of their names.
pub open spec fn alphabetical_types() -> Seq<NodeType> {
    seq![
        NodeType::EmailBody,
        NodeType::EmailMessage,
        NodeType::MailingList,
        NodeType::Origin,
        NodeType::Person,
        NodeType::Patch,
    ]
}

/// The names of the first `n` kinds in alphabetical order whose bit is set
/// in `bits`, separated by commas.
pub open spec fn listed_names(bits: u64, n: nat) -> Seq<char>
    decreases n,
{
    if n == 0 {
        Seq::empty()
    } else {
        let prev = listed_names(bits, (n - 1) as nat);
        let t = alphabetical_types()[n - 1];
        if !has_bit(bits, kind_index(t)) {
            prev
        } else if prev.len() == 0 {
            kind_name(t)
        } else {
            prev + seq![','] + kind_name(t)
        }
    }
}

impl NodeConstraint {
    /// Reads `*` (every kind) or a comma-separated list of kind names; a
    /// name that is no kind comes back as the error.
    pub fn parse(s: &str) -> (r: Result<NodeConstraint, String>)
        ensures
            s@ == seq!['*'] ==> r == Ok::<NodeConstraint, String>(NodeConstraint(0b111111)),
            s@ != seq!['*'] ==> match named_bits(crate::text::split(s@, ',')) {
                Ok(b) => r == Ok::<NodeConstraint, String>(NodeConstraint(b)),
                Err(e) => r matches Err(m) && m@ == e,
            },
    {
        let cs = crate::text::chars_of(s);
        if cs.len() == 1 && cs[0] == '*' {
            assert(cs@ =~= seq!['*']);
            return Ok(NodeConstraint(0b111111));
        }
        assert(s@ != seq!['*']) by {
            if s@ == seq!['*'] {
                assert(cs@.len() == 1 && cs@[0] == '*');
            }
        }
        let toks = crate::text::split_chars(&cs, ',');
        let ghost ts = crate::text::split(s@, ',');
        let mut bits: u64 = 0;
        let mut i: usize = 0;
        assert(ts.subrange(0, 0) =~= Seq::<Seq<char>>::empty());
        while i < toks.len()
            invariant
                s@ != seq!['*'],
                ts == crate::text::split(s@, ','),
                toks@.len() == ts.len(),
                forall|k: int| 0 <= k < toks@.len() ==> (#[trigger] toks@[k])@ == ts[k],
                0 <= i <= ts.len(),
                named_bits(ts.subrange(0, i as int)) == Ok::<u64, Seq<char>>(bits),
            decreases ts.len() - i,
        {
            let ghost pre = ts.subrange(0, i + 1);
            assert(pre.drop_last() =~= ts.subrange(0, i as int));
            assert(pre.last() == toks@[i as int]@);
            let name = crate::text::string_of(&toks[i]);
            match NodeType::parse(name.as_str()) {
                Ok(t) => {
                    bits = bits | (1u64 << t.to_u8());
                },
                Err(e) => {
                    proof {
                        lemma_error_stays(ts, i + 1, e@);
                    }
                    return Err(e);
                },
            }
            i = i + 1;
        }
        assert(ts.subrange(0, ts.len() as int) =~= ts);
        Ok(NodeConstraint(bits))
    }

    /// `*` for every kind, else the names of the kinds in the set in
    /// alphabetical order, separated by commas.
    pub fn to_text(&self) -> (r: String)
        ensures
            self.0 == 0b111111 ==> r@ == seq!['*'],
            self.0 != 0b111111 ==> r@ == listed_names(self.0, 6),
    {
        if self.0 == 0b111111 {
            let r = String::from_str("*");
            proof {
                reveal_strlit("*");
            }
            assert(r@ =~= seq!['*']);
            return r;
        }
        let order = [
            NodeType::EmailBody,
            NodeType::EmailMessage,
            NodeType::MailingList,
            NodeType::Origin,
            NodeType::Person,
            NodeType::Patch,
        ];
        assert(order@ =~= alphabetical_types());
        let mut r = String::new();
        let mut i: usize = 0;
        while i < 6
            invariant
                0 <= i <= 6,
                order@ == alphabetical_types(),
                r@ == listed_names(self.0, i as nat),
            decreases 6 - i,
        {
            let t = order[i];
            if self.matches(t) {
                if r.as_str().unicode_len() > 0 {
                    r.append(",");
                    proof {
                        reveal_strlit(",");
                    }
                }
                r.append(t.to_str());
            }
            assert(r@ =~= listed_names(self.0, (i + 1) as nat));
            i = i + 1;
        }
        r
    }
}

impl core::str::FromStr for NodeType {
    type Err = String;

    fn from_str(s: &str) -> Result<NodeType, String> {
        NodeType::parse(s)
    }
}

impl core::str::FromStr for NodeConstraint {
    type Err = String;

    fn from_str(s: &str) -> Result<NodeConstraint, String> {
        NodeConstraint::parse(s)
    }
}

/// The kinds of the two ends of an arc; `None` accepts any kind.
pub struct ArcType {
    pub src: Option<NodeType>,
    pub dst: Option<NodeType>,
}

} // verus!
