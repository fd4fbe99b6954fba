//! Core data model: errors, time units, variables, and the scope tree.

use vstd::prelude::*;

verus! {

/// Why a parse attempt failed. Every variant carries the 1-based line of
/// the input at which the problem was found (for a truncated input, the
/// last line of the file).
#[derive(Debug, Clone, Copy, PartialEq, Eq, Structural)]
pub enum VcdError {
    /// A structural grammar violation before `$enddefinitions $end`,
    /// including a missing `$enddefinitions` and a truncated declaration.
    MalformedHeader { line: u64 },
    /// A `$timescale` whose magnitude is not one of 1, 10, 100 or whose
    /// unit is not one of the six recognized units.
    InvalidTimescale { line: u64 },
    /// An `$upscope $end` with no open `$scope`, or a scope still open at
    /// `$enddefinitions`.
    UnbalancedScope { line: u64 },
    /// A bad token or value literal in the value-change body.
    MalformedCommand { line: u64 },
    /// A value change whose identifier code was never declared.
    UnknownIdentifier { line: u64 },
}

impl VcdError {
    /// The input line on which the failure was detected.
    pub open spec fn spec_line(self) -> u64 {
        match self {
            VcdError::MalformedHeader { line } => line,
            VcdError::InvalidTimescale { line } => line,
            VcdError::UnbalancedScope { line } => line,
            VcdError::MalformedCommand { line } => line,
            VcdError::UnknownIdentifier { line } => line,
        }
    }

    /// Returns the line number carried by the error.
    pub fn line(self) -> (r: u64)
        ensures
            r == self.spec_line(),
    {
        match self {
            VcdError::MalformedHeader { line } => line,
            VcdError::InvalidTimescale { line } => line,
            VcdError::UnbalancedScope { line } => line,
            VcdError::MalformedCommand { line } => line,
            VcdError::UnknownIdentifier { line } => line,
        }
    }
}

/// The unit of a `$timescale` declaration.
#[derive(Debug, Clone, Copy, PartialEq, Eq, Structural)]
pub enum TimeUnit {
    S,
    MS,
    US,
    NS,
    PS,
    FS,
}

impl TimeUnit {
    /// The base-10 negative-exponent code of the unit, as
    /// conventionally reported: S = 1, MS = 3, US = 6, NS = 9,
    /// PS = 12, FS = 15.
    pub open spec fn spec_exponent(self) -> u64 {
        match self {
            TimeUnit::S => 1,
            TimeUnit::MS => 3,
            TimeUnit::US => 6,
            TimeUnit::NS => 9,
            TimeUnit::PS => 12,
            TimeUnit::FS => 15,
        }
    }

    /// Returns the numeric exponent code of the unit.
    pub fn exponent(self) -> (r: u64)
        ensures
            r == self.spec_exponent(),
    {
        match self {
            TimeUnit::S => 1,
            TimeUnit::MS => 3,
            TimeUnit::US => 6,
            TimeUnit::NS => 9,
            TimeUnit::PS => 12,
            TimeUnit::FS => 15,
        }
    }
}

/// A declared variable: its reference name, its identifier code (the
/// compact token the body uses to refer to it), its bit width, and the
/// optional bit-select suffix (the raw `[msb:lsb]` or `[bit]` token).
///
/// Names and codes are byte strings: VCD is an ASCII format.
#[derive(Debug, Clone, PartialEq, Eq)]
pub struct Variable {
    pub reference: Vec<u8>,
    pub code: Vec<u8>,
    pub width: u64,
    pub index: Option<Vec<u8>>,
}

/// The mathematical value of a [`Variable`].
#[verifier::ext_equal]
pub struct VarV {
    pub reference: Seq<u8>,
    pub code: Seq<u8>,
    pub width: u64,
    pub index: Option<Seq<u8>>,
}

impl View for Variable {
    type V = VarV;

    open spec fn view(&self) -> VarV {
        VarV {
            reference: self.reference@,
            code: self.code@,
            width: self.width,
            index: match self.index {
                Option::Some(ix) => Option::Some(ix@),
                Option::None => Option::None,
            },
        }
    }
}

/// One entry of a scope: either a variable declaration or a nested scope.
#[derive(Debug)]
pub enum ScopeItem {
    Var(Variable),
    Scope(ScopeNode),
}

/// A named node of the scope tree, owning its children in declaration
/// order.
#[derive(Debug)]
pub struct ScopeNode {
    pub name: Vec<u8>,
    pub items: Vec<ScopeItem>,
}

/// The mathematical value of a [`ScopeItem`].
#[verifier::ext_equal]
pub enum ScopeItemV {
    Var(VarV),
    Scope(ScopeNodeV),
}

/// The mathematical value of a [`ScopeNode`].
#[verifier::ext_equal]
pub struct ScopeNodeV {
    pub name: Seq<u8>,
    pub items: Seq<ScopeItemV>,
}

impl ScopeItem {
    /// The view of the item, taken recursively through the tree.
    pub open spec fn deep(self) -> ScopeItemV
        decreases self,
    {
        match self {
            ScopeItem::Var(v) => ScopeItemV::Var(v@),
            ScopeItem::Scope(s) => ScopeItemV::Scope(s.deep()),
        }
    }
}

/// The views of a sequence of scope items, in order.
pub open spec fn deep_items(items: Seq<ScopeItem>) -> Seq<ScopeItemV>
    decreases items,
{
    if items.len() == 0 {
        Seq::empty()
    } else {
        seq![items[0].deep()] + deep_items(items.subrange(1, items.len() as int))
    }
}

impl ScopeNode {
    /// The view of the node, taken recursively through the tree.
    pub open spec fn deep(self) -> ScopeNodeV
        decreases self,
    {
        ScopeNodeV { name: self.name@, items: deep_items(self.items@) }
    }
}

/// Appending an item to a scope commutes with taking views.
pub proof fn lemma_deep_items_push(items: Seq<ScopeItem>, x: ScopeItem)
    ensures
        deep_items(items.push(x)) == deep_items(items).push(x.deep()),
    decreases items.len(),
{
    let p = items.push(x);
    if items.len() == 0 {
        assert(p[0] == x);
        assert(p.subrange(1, p.len() as int) =~= Seq::<ScopeItem>::empty());
        assert(deep_items(Seq::<ScopeItem>::empty()) =~= Seq::<ScopeItemV>::empty());
        assert(deep_items(p) == seq![p[0].deep()] + deep_items(p.subrange(1, p.len() as int)));
        assert(items =~= Seq::<ScopeItem>::empty());
        assert(deep_items(p) =~= deep_items(items).push(x.deep()));
    } else {
        assert(p[0] == items[0]);
        assert(p.subrange(1, p.len() as int) =~= items.subrange(1, items.len() as int).push(x));
        lemma_deep_items_push(items.subrange(1, items.len() as int), x);
        assert(deep_items(p) =~= deep_items(items).push(x.deep()));
    }
}

/// The header metadata of a VCD file. Each field is optional; when a
/// declaration is repeated the last occurrence wins.
#[derive(Debug, Clone, PartialEq, Eq)]
pub struct Header {
    pub date: Option<Vec<u8>>,
    pub version: Option<Vec<u8>>,
    pub timescale: Option<(u64, TimeUnit)>,
}

/// The mathematical value of a [`Header`].
#[verifier::ext_equal]
pub struct HeaderV {
    pub date: Option<Seq<u8>>,
    pub version: Option<Seq<u8>>,
    pub timescale: Option<(u64, TimeUnit)>,
}

impl View for Header {
    type V = HeaderV;

    open spec fn view(&self) -> HeaderV {
        HeaderV {
            date: match self.date {
                Option::Some(d) => Option::Some(d@),
                Option::None => Option::None,
            },
            version: match self.version {
                Option::Some(v) => Option::Some(v@),
                Option::None => Option::None,
            },
            timescale: self.timescale,
        }
    }
}

} // verus!
