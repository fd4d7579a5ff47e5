//! The hierarchy block: its tokens, and the tree of scopes they fold into.

use vstd::prelude::*;
use crate::block_parsers::{Block, BlockView, DEFAULT_MAX_SIZE, spec_extract_data};
use crate::data_types::blocktype::BlockType;
use crate::data_types::varint::{VarInt, lemma_varint_advances};
use crate::error::{
    DecompressReason,
    Frames,
    FstFileParseErrorKind,
    PositionError,
    fail,
    in_expanded,
};
use crate::primitives::{
    Outcome,
    has_bytes,
    spec_terminated_text,
    terminated_text_at,
    u8_at,
    shown,
};

pub mod attribute_type;
pub mod balance;
pub mod misc_type;
pub mod scope_type;
pub mod var_dir;
pub mod var_type;

pub use attribute_type::AttributeType;
pub use misc_type::MiscType;
pub use scope_type::ScopeType;
pub use var_dir::VarDir;
pub use var_type::VarType;

verus! {

/// The most bytes of a name, its NUL counted.
pub const MAX_NAME_LEN: usize = 512;

/// The byte that opens an attribute.
pub const TAG_ATTR_BEGIN: u8 = 252;

/// The byte that closes an attribute.
pub const TAG_ATTR_END: u8 = 253;

/// The byte that opens a scope.
pub const TAG_SCOPE_BEGIN: u8 = 254;

/// The byte that closes a scope.
pub const TAG_SCOPE_END: u8 = 255;

/// A variable of the design.
#[derive(Debug, Clone, PartialEq)]
pub struct Vcd {
    pub var_type: VarType,
    pub direction: VarDir,
    pub name: String,
    pub length_of_variable: VarInt,
    pub alias_variable_id: VarInt,
}

/// The opening of a scope.
#[derive(Debug, Clone, PartialEq)]
pub struct ScopeBegin {
    pub scope_type: ScopeType,
    pub name: String,
    pub component: String,
}

/// An attribute of the scope it stands in.
#[derive(Debug, Clone, PartialEq)]
pub struct Attribute {
    pub attr_type: AttributeType,
    pub misc_type: MiscType,
    pub name: String,
    pub value: VarInt,
}

/// One token of the hierarchy data.
#[derive(Debug, Clone, PartialEq)]
pub enum HierarchyToken {
    Attribute(Attribute),
    AttributeEnd,
    ScopeBegin(ScopeBegin),
    ScopeEnd,
    Vcd(Vcd),
    Unknown(u8),
}

/// Where a token stands in the expanded hierarchy data.
#[derive(Debug, Clone, Copy, PartialEq)]
pub struct PosistionAndSize {
    pub position: usize,
    pub size: usize,
}

/// A variable, in contracts.
pub struct VcdView {
    pub var_type: VarType,
    pub direction: VarDir,
    pub name: Seq<char>,
    pub length_of_variable: VarInt,
    pub alias_variable_id: VarInt,
}

/// The opening of a scope, in contracts.
pub struct ScopeBeginView {
    pub scope_type: ScopeType,
    pub name: Seq<char>,
    pub component: Seq<char>,
}

/// An attribute, in contracts.
pub struct AttributeView {
    pub attr_type: AttributeType,
    pub misc_type: MiscType,
    pub name: Seq<char>,
    pub value: VarInt,
}

/// A token, in contracts.
pub enum TokenView {
    Attribute(AttributeView),
    AttributeEnd,
    ScopeBegin(ScopeBeginView),
    ScopeEnd,
    Vcd(VcdView),
    Unknown(u8),
}

impl View for Vcd {
    type V = VcdView;

    open spec fn view(&self) -> VcdView {
        VcdView {
            var_type: self.var_type,
            direction: self.direction,
            name: self.name@,
            length_of_variable: self.length_of_variable,
            alias_variable_id: self.alias_variable_id,
        }
    }
}

impl View for ScopeBegin {
    type V = ScopeBeginView;

    open spec fn view(&self) -> ScopeBeginView {
        ScopeBeginView {
            scope_type: self.scope_type,
            name: self.name@,
            component: self.component@,
        }
    }
}

impl View for Attribute {
    type V = AttributeView;

    open spec fn view(&self) -> AttributeView {
        AttributeView {
            attr_type: self.attr_type,
            misc_type: self.misc_type,
            name: self.name@,
            value: self.value,
        }
    }
}

impl View for HierarchyToken {
    type V = TokenView;

    open spec fn view(&self) -> TokenView {
        match self {
            HierarchyToken::Attribute(a) => TokenView::Attribute(a@),
            HierarchyToken::AttributeEnd => TokenView::AttributeEnd,
            HierarchyToken::ScopeBegin(b) => TokenView::ScopeBegin(b@),
            HierarchyToken::ScopeEnd => TokenView::ScopeEnd,
            HierarchyToken::Vcd(v) => TokenView::Vcd(v@),
            HierarchyToken::Unknown(b) => TokenView::Unknown(*b),
        }
    }
}

/// The attribute whose fields follow the opening byte at `pos - 1`.
pub open spec fn spec_attribute(s: Seq<u8>, pos: int) -> Outcome<TokenView> {
    match AttributeType::spec_parse_at(s, pos) {
        Err(f) => Err(f),
        Ok((at, attr_type)) => match MiscType::spec_parse_at(s, at) {
            Err(f) => Err(f),
            Ok((at, misc_type)) => match spec_terminated_text(s, at, MAX_NAME_LEN as nat) {
                Err(f) => Err(f),
                Ok((at, name)) => match VarInt::spec_parse_at(s, at) {
                    Err(f) => Err(f),
                    Ok((end, value)) => Ok(
                        (
                            end,
                            TokenView::Attribute(
                                AttributeView {
                                    attr_type,
                                    misc_type,
                                    name: shown(name),
                                    value,
                                },
                            ),
                        ),
                    ),
                },
            },
        },
    }
}

/// The opening of a scope whose fields follow the opening byte at
/// `pos - 1`.
pub open spec fn spec_scope_begin(s: Seq<u8>, pos: int) -> Outcome<TokenView> {
    match ScopeType::spec_parse_at(s, pos) {
        Err(f) => Err(f),
        Ok((at, scope_type)) => match spec_terminated_text(s, at, MAX_NAME_LEN as nat) {
            Err(f) => Err(f),
            Ok((at, name)) => match spec_terminated_text(s, at, MAX_NAME_LEN as nat) {
                Err(f) => Err(f),
                Ok((end, component)) => Ok(
                    (
                        end,
                        TokenView::ScopeBegin(
                            ScopeBeginView {
                                scope_type,
                                name: shown(name),
                                component: shown(component),
                            },
                        ),
                    ),
                ),
            },
        },
    }
}

/// The variable of kind `var_type` whose other fields stand at `pos`.
pub open spec fn spec_vcd(s: Seq<u8>, pos: int, var_type: VarType) -> Outcome<TokenView> {
    match VarDir::spec_parse_at(s, pos) {
        Err(f) => Err(f),
        Ok((at, direction)) => match spec_terminated_text(s, at, MAX_NAME_LEN as nat) {
            Err(f) => Err(f),
            Ok((at, name)) => match VarInt::spec_parse_at(s, at) {
                Err(f) => Err(f),
                Ok((at, length_of_variable)) => match VarInt::spec_parse_at(s, at) {
                    Err(f) => Err(f),
                    Ok((end, alias_variable_id)) => Ok(
                        (
                            end,
                            TokenView::Vcd(
                                VcdView {
                                    var_type,
                                    direction,
                                    name: shown(name),
                                    length_of_variable,
                                    alias_variable_id,
                                },
                            ),
                        ),
                    ),
                },
            },
        },
    }
}

/// The token at `pos`.  Its first byte says what it is: one of the four
/// marks, or the kind of a variable; a byte that is neither is a token of its
/// own.
pub open spec fn spec_token(s: Seq<u8>, pos: int) -> Outcome<TokenView> {
    if !has_bytes(s, pos, 1) {
        Err(fail(pos, FstFileParseErrorKind::Truncated))
    } else if s[pos] == TAG_ATTR_BEGIN {
        spec_attribute(s, pos + 1)
    } else if s[pos] == TAG_ATTR_END {
        Ok((pos + 1, TokenView::AttributeEnd))
    } else if s[pos] == TAG_SCOPE_BEGIN {
        spec_scope_begin(s, pos + 1)
    } else if s[pos] == TAG_SCOPE_END {
        Ok((pos + 1, TokenView::ScopeEnd))
    } else {
        match VarType::from_code(s[pos]) {
            Some(var_type) => spec_vcd(s, pos + 1, var_type),
            None => Ok((pos + 1, TokenView::Unknown(s[pos]))),
        }
    }
}

/// A token is at least one byte long and ends within the buffer.
pub proof fn lemma_token_advances(s: Seq<u8>, pos: int)
    requires
        spec_token(s, pos) is Ok,
    ensures
        0 <= pos < spec_token(s, pos)->Ok_0.0 <= s.len(),
{
    let tag = s[pos];
    if tag == TAG_ATTR_BEGIN {
        let at = spec_terminated_text(s, pos + 3, MAX_NAME_LEN as nat)->Ok_0.0;
        lemma_varint_advances(s, at);
    } else if tag == TAG_SCOPE_BEGIN {
    } else if tag != TAG_ATTR_END && tag != TAG_SCOPE_END && VarType::from_code(tag) is Some {
        let at = spec_terminated_text(s, pos + 2, MAX_NAME_LEN as nat)->Ok_0.0;
        lemma_varint_advances(s, at);
        let at2 = VarInt::spec_parse_at(s, at)->Ok_0.0;
        lemma_varint_advances(s, at2);
    }
}

/// The tokens from `pos` to the end of the data, each with its place.
pub open spec fn spec_tokens(s: Seq<u8>, pos: int) -> Result<
    Seq<(PosistionAndSize, TokenView)>,
    Frames,
>
    decreases s.len() - pos,
{
    if pos < 0 || pos >= s.len() {
        Ok(Seq::empty())
    } else {
        match spec_token(s, pos) {
            Err(f) => Err(f),
            Ok((next, token)) => match spec_tokens(s, next) {
                Err(f) => Err(f),
                Ok(rest) => Ok(
                    seq![
                        (
                            PosistionAndSize {
                                position: pos as usize,
                                size: (next - pos) as usize,
                            },
                            token,
                        ),
                    ] + rest,
                ),
            },
        }
    }
}

/// The places and views of a list of tokens.
pub open spec fn tokens_view(tokens: Seq<(PosistionAndSize, HierarchyToken)>) -> Seq<
    (PosistionAndSize, TokenView),
> {
    tokens.map_values(|t: (PosistionAndSize, HierarchyToken)| (t.0, t.1@))
}

fn parse_attr_begin(data: &[u8], pos: usize) -> (r: Result<(usize, HierarchyToken), PositionError>)
    ensures
        match (r, spec_attribute(data@, pos as int)) {
            (Ok((next, token)), Ok((n, t))) => next == n && token@ == t,
            (Err(e), Err(f)) => e@ == f,
            _ => false,
        },
{
    let (at, attr_type) = match AttributeType::parse_at(data, pos) {
        Ok(got) => got,
        Err(e) => {
            return Err(e);
        },
    };
    let (at, misc_type) = match MiscType::parse_at(data, at) {
        Ok(got) => got,
        Err(e) => {
            return Err(e);
        },
    };
    let (at, name) = match terminated_text_at(data, at, MAX_NAME_LEN) {
        Ok(got) => got,
        Err(e) => {
            return Err(e);
        },
    };
    match VarInt::parse_at(data, at) {
        Err(e) => Err(e),
        Ok((end, value)) => Ok(
            (end, HierarchyToken::Attribute(Attribute { attr_type, misc_type, name, value })),
        ),
    }
}

fn parse_scope_begin(data: &[u8], pos: usize) -> (r: Result<(usize, HierarchyToken), PositionError>)
    ensures
        match (r, spec_scope_begin(data@, pos as int)) {
            (Ok((next, token)), Ok((n, t))) => next == n && token@ == t,
            (Err(e), Err(f)) => e@ == f,
            _ => false,
        },
{
    let (at, scope_type) = match ScopeType::parse_at(data, pos) {
        Ok(got) => got,
        Err(e) => {
            return Err(e);
        },
    };
    let (at, name) = match terminated_text_at(data, at, MAX_NAME_LEN) {
        Ok(got) => got,
        Err(e) => {
            return Err(e);
        },
    };
    match terminated_text_at(data, at, MAX_NAME_LEN) {
        Err(e) => Err(e),
        Ok((end, component)) => Ok(
            (end, HierarchyToken::ScopeBegin(ScopeBegin { scope_type, name, component })),
        ),
    }
}

fn parse_vcd(data: &[u8], pos: usize, var_type: VarType) -> (r: Result<
    (usize, HierarchyToken),
    PositionError,
>)
    ensures
        match (r, spec_vcd(data@, pos as int, var_type)) {
            (Ok((next, token)), Ok((n, t))) => next == n && token@ == t,
            (Err(e), Err(f)) => e@ == f,
            _ => false,
        },
{
    let (at, direction) = match VarDir::parse_at(data, pos) {
        Ok(got) => got,
        Err(e) => {
            return Err(e);
        },
    };
    let (at, name) = match terminated_text_at(data, at, MAX_NAME_LEN) {
        Ok(got) => got,
        Err(e) => {
            return Err(e);
        },
    };
    let (at, length_of_variable) = match VarInt::parse_at(data, at) {
        Ok(got) => got,
        Err(e) => {
            return Err(e);
        },
    };
    match VarInt::parse_at(data, at) {
        Err(e) => Err(e),
        Ok((end, alias_variable_id)) => Ok(
            (
                end,
                HierarchyToken::Vcd(
                    Vcd { var_type, direction, name, length_of_variable, alias_variable_id },
                ),
            ),
        ),
    }
}

impl HierarchyToken {
    /// Reads the token at `pos`.
    pub fn parse_at(data: &[u8], pos: usize) -> (r: Result<(usize, HierarchyToken), PositionError>)
        ensures
            match (r, spec_token(data@, pos as int)) {
                (Ok((next, token)), Ok((n, t))) => next == n && token@ == t && pos < next
                    <= data@.len(),
                (Err(e), Err(f)) => e@ == f,
                _ => false,
            },
    {
        let (next, tag) = match u8_at(data, pos) {
            Ok(got) => got,
            Err(e) => {
                return Err(e);
            },
        };
        let r = if tag == TAG_ATTR_BEGIN {
            parse_attr_begin(data, next)
        } else if tag == TAG_ATTR_END {
            Ok((next, HierarchyToken::AttributeEnd))
        } else if tag == TAG_SCOPE_BEGIN {
            parse_scope_begin(data, next)
        } else if tag == TAG_SCOPE_END {
            Ok((next, HierarchyToken::ScopeEnd))
        } else {
            match VarType::from_u8(tag) {
                Some(var_type) => parse_vcd(data, next, var_type),
                None => Ok((next, HierarchyToken::Unknown(tag))),
            }
        };
        proof {
            if r is Ok {
                lemma_token_advances(data@, pos as int);
            }
        }
        r
    }
}

/// Reads the tokens that make up `data`.
pub fn parse_tokens(data: &[u8]) -> (r: Result<Vec<(PosistionAndSize, HierarchyToken)>, PositionError>)
    ensures
        match (r, spec_tokens(data@, 0)) {
            (Ok(tokens), Ok(t)) => tokens_view(tokens@) == t,
            (Err(e), Err(f)) => e@ == f,
            _ => false,
        },
{
    let mut tokens: Vec<(PosistionAndSize, HierarchyToken)> = Vec::new();
    let mut at: usize = 0;
    while at < data.len()
        invariant
            at <= data.len(),
            match spec_tokens(data@, at as int) {
                Ok(rest) => spec_tokens(data@, 0) == Ok::<
                    Seq<(PosistionAndSize, TokenView)>,
                    Frames,
                >(tokens_view(tokens@) + rest),
                Err(f) => spec_tokens(data@, 0) == Err::<
                    Seq<(PosistionAndSize, TokenView)>,
                    Frames,
                >(f),
            },
        decreases data.len() - at,
    {
        match HierarchyToken::parse_at(data, at) {
            Err(e) => {
                return Err(e);
            },
            Ok((next, token)) => {
                let place = PosistionAndSize { position: at, size: next - at };
                proof {
                    let before = tokens_view(tokens@);
                    let after = tokens_view(tokens@.push((place, token)));
                    assert(after =~= before.push((place, token@)));
                    if let Ok(rest) = spec_tokens(data@, next as int) {
                        assert(before + (seq![(place, token@)] + rest) =~= after + rest);
                    }
                }
                tokens.push((place, token));
                at = next;
            },
        }
    }
    proof {
        assert(tokens_view(tokens@) + Seq::<(PosistionAndSize, TokenView)>::empty()
            =~= tokens_view(tokens@));
    }
    Ok(tokens)
}

} // verus!

verus! {

/// A scope with what it holds.
#[derive(Debug)]
pub struct Scope {
    pub scope_type: ScopeType,
    pub name: String,
    pub component: String,
    pub attributes: Vec<Attribute>,
    pub signals: Vec<Vcd>,
    pub scopes: Vec<Scope>,
}

/// A scope, in contracts.
pub struct ScopeView {
    pub scope_type: ScopeType,
    pub name: Seq<char>,
    pub component: Seq<char>,
    pub attributes: Seq<AttributeView>,
    pub signals: Seq<VcdView>,
    pub scopes: Seq<ScopeView>,
}

/// The view of a scope.
pub open spec fn scope_view(scope: Scope) -> ScopeView
    decreases scope, scope.scopes@.len() + 1,
{
    ScopeView {
        scope_type: scope.scope_type,
        name: scope.name@,
        component: scope.component@,
        attributes: scope.attributes@.map_values(|a: Attribute| a@),
        signals: scope.signals@.map_values(|v: Vcd| v@),
        scopes: child_views(scope, scope.scopes@.len()),
    }
}

/// The views of the first `n` scopes inside a scope.
pub open spec fn child_views(scope: Scope, n: nat) -> Seq<ScopeView>
    decreases scope, n,
{
    if n == 0 || n > scope.scopes@.len() {
        Seq::empty()
    } else {
        child_views(scope, (n - 1) as nat).push(scope_view(scope.scopes@[n - 1]))
    }
}

impl View for Scope {
    type V = ScopeView;

    open spec fn view(&self) -> ScopeView {
        scope_view(*self)
    }
}

/// The views of the scopes inside a scope are the views of each of them.
pub proof fn lemma_child_views(scope: Scope, n: nat)
    requires
        n <= scope.scopes@.len(),
    ensures
        child_views(scope, n).len() == n,
        forall|i: int| 0 <= i < n ==> #[trigger] child_views(scope, n)[i] == scope.scopes@[i]@,
    decreases n,
{
    if n > 0 {
        lemma_child_views(scope, (n - 1) as nat);
    }
}

/// The scopes in the view of a scope are the views of the scopes inside it.
pub proof fn lemma_scope_view_scopes(scope: Scope)
    ensures
        scope@.scopes.len() == scope.scopes@.len(),
        forall|i: int|
            0 <= i < scope.scopes@.len() ==> #[trigger] scope@.scopes[i] == scope.scopes@[i]@,
{
    lemma_child_views(scope, scope.scopes@.len());
}

} // verus!

verus! {

/// The views of a list of scopes.
pub open spec fn scopes_view(scopes: Seq<Scope>) -> Seq<ScopeView> {
    scopes.map_values(|s: Scope| s@)
}

/// The scope that a `ScopeBegin` opens, with nothing in it yet.
pub open spec fn empty_scope(b: ScopeBeginView) -> ScopeView {
    ScopeView {
        scope_type: b.scope_type,
        name: b.name,
        component: b.component,
        attributes: Seq::empty(),
        signals: Seq::empty(),
        scopes: Seq::empty(),
    }
}

/// The offset behind the last token, or the greatest offset there is where
/// the token claims to end above it.
pub open spec fn end_of(tokens: Seq<(PosistionAndSize, TokenView)>) -> int {
    if tokens.len() == 0 {
        0
    } else if tokens.last().0.position + tokens.last().0.size > usize::MAX {
        usize::MAX as int
    } else {
        tokens.last().0.position + tokens.last().0.size
    }
}

/// The pushdown machine that folds tokens into a tree, from token `i` on.
/// `current` is the scope that is open, `ancestors` are the scopes around
/// it, the outermost first.
///
/// A `ScopeBegin` opens a scope inside the current one; an attribute or a
/// variable goes into the current scope; `AttributeEnd` and unknown tokens
/// are passed over; a `ScopeEnd` closes the current scope and hands it to
/// the scope around it.  When the outermost scope closes, the tokens must be
/// at their end: a token behind it is `TrailingBytes`.  Tokens that end
/// while a scope is open are `Truncated`.
pub open spec fn fold_from(
    ancestors: Seq<ScopeView>,
    current: ScopeView,
    tokens: Seq<(PosistionAndSize, TokenView)>,
    i: int,
) -> Result<ScopeView, Frames>
    decreases tokens.len() - i,
{
    if i < 0 || i >= tokens.len() {
        Err(fail(end_of(tokens), FstFileParseErrorKind::Truncated))
    } else {
        match tokens[i].1 {
            TokenView::ScopeBegin(b) => fold_from(
                ancestors.push(current),
                empty_scope(b),
                tokens,
                i + 1,
            ),
            TokenView::Attribute(a) => fold_from(
                ancestors,
                ScopeView { attributes: current.attributes.push(a), ..current },
                tokens,
                i + 1,
            ),
            TokenView::Vcd(v) => fold_from(
                ancestors,
                ScopeView { signals: current.signals.push(v), ..current },
                tokens,
                i + 1,
            ),
            TokenView::AttributeEnd => fold_from(ancestors, current, tokens, i + 1),
            TokenView::Unknown(_) => fold_from(ancestors, current, tokens, i + 1),
            TokenView::ScopeEnd => if ancestors.len() == 0 {
                if i + 1 == tokens.len() {
                    Ok(current)
                } else {
                    Err(
                        fail(
                            tokens[i + 1].0.position as int,
                            FstFileParseErrorKind::TrailingBytes,
                        ),
                    )
                }
            } else {
                let parent = ancestors.last();
                fold_from(
                    ancestors.drop_last(),
                    ScopeView { scopes: parent.scopes.push(current), ..parent },
                    tokens,
                    i + 1,
                )
            },
        }
    }
}

/// The tree that the tokens fold into.  The first token must open the
/// outermost scope.
pub open spec fn spec_fold(tokens: Seq<(PosistionAndSize, TokenView)>) -> Result<ScopeView, Frames> {
    if tokens.len() == 0 {
        Err(fail(0, FstFileParseErrorKind::Truncated))
    } else {
        match tokens[0].1 {
            TokenView::ScopeBegin(b) => fold_from(Seq::empty(), empty_scope(b), tokens, 1),
            _ => Err(fail(tokens[0].0.position as int, FstFileParseErrorKind::Truncated)),
        }
    }
}

impl Attribute {
    /// A copy of the attribute.
    pub fn duplicate(&self) -> (a: Attribute)
        ensures
            a@ == self@,
    {
        Attribute {
            attr_type: self.attr_type,
            misc_type: self.misc_type,
            name: self.name.clone(),
            value: self.value,
        }
    }
}

impl Vcd {
    /// A copy of the variable.
    pub fn duplicate(&self) -> (v: Vcd)
        ensures
            v@ == self@,
    {
        Vcd {
            var_type: self.var_type,
            direction: self.direction,
            name: self.name.clone(),
            length_of_variable: self.length_of_variable,
            alias_variable_id: self.alias_variable_id,
        }
    }
}

impl Scope {
    /// A scope with nothing in it.
    pub fn new(scope_type: ScopeType, name: String, component: String) -> (s: Scope)
        ensures
            s@ == empty_scope(ScopeBeginView { scope_type, name: name@, component: component@ }),
    {
        let s = Scope {
            scope_type,
            name,
            component,
            attributes: Vec::new(),
            signals: Vec::new(),
            scopes: Vec::new(),
        };
        proof {
            lemma_scope_view_scopes(s);
        }
        assert(s@.attributes =~= Seq::empty());
        assert(s@.signals =~= Seq::empty());
        assert(s@.scopes =~= Seq::empty());
        s
    }

    /// Puts an attribute into the scope.
    fn add_attribute(&mut self, attribute: Attribute)
        ensures
            final(self)@ == (ScopeView {
                attributes: old(self)@.attributes.push(attribute@),
                ..old(self)@
            }),
    {
        self.attributes.push(attribute);
        proof {
            lemma_scope_view_scopes(*self);
            lemma_scope_view_scopes(*old(self));
        }
        assert(self@.attributes =~= old(self)@.attributes.push(attribute@));
        assert(self@.scopes =~= old(self)@.scopes);
    }

    /// Puts a variable into the scope.
    fn add_signal(&mut self, signal: Vcd)
        ensures
            final(self)@ == (ScopeView {
                signals: old(self)@.signals.push(signal@),
                ..old(self)@
            }),
    {
        self.signals.push(signal);
        proof {
            lemma_scope_view_scopes(*self);
            lemma_scope_view_scopes(*old(self));
        }
        assert(self@.signals =~= old(self)@.signals.push(signal@));
        assert(self@.scopes =~= old(self)@.scopes);
    }

    /// Puts a scope into the scope.
    fn add_scope(&mut self, scope: Scope)
        ensures
            final(self)@ == (ScopeView { scopes: old(self)@.scopes.push(scope@), ..old(self)@ }),
    {
        proof {
            lemma_scope_view_scopes(*self);
        }
        self.scopes.push(scope);
        proof {
            lemma_scope_view_scopes(*self);
        }
        assert(self@.scopes =~= old(self)@.scopes.push(scope@));
    }
}

/// The tree of scopes of a hierarchy.
#[derive(Debug)]
pub struct HierarchyContent {
    pub root_scope: Scope,
}

impl HierarchyContent {
    /// Folds the tokens into the tree of scopes.
    pub fn parse_structual_hierarchy(tokens: &[(PosistionAndSize, HierarchyToken)]) -> (r: Result<
        Scope,
        PositionError,
    >)
        ensures
            match (r, spec_fold(tokens_view(tokens@))) {
                (Ok(scope), Ok(s)) => scope@ == s,
                (Err(e), Err(f)) => e@ == f,
                _ => false,
            },
    {
        let ghost tv = tokens_view(tokens@);
        if tokens.len() == 0 {
            return Err(PositionError::new(0, FstFileParseErrorKind::Truncated));
        }
        let mut current: Scope = match &tokens[0].1 {
            HierarchyToken::ScopeBegin(b) => Scope::new(
                b.scope_type,
                b.name.clone(),
                b.component.clone(),
            ),
            _ => {
                return Err(
                    PositionError::new(tokens[0].0.position, FstFileParseErrorKind::Truncated),
                );
            },
        };
        let mut ancestors: Vec<Scope> = Vec::new();
        let mut i: usize = 1;
        assert(scopes_view(ancestors@) =~= Seq::empty());
        while i < tokens.len()
            invariant
                1 <= i <= tokens.len(),
                tv == tokens_view(tokens@),
                spec_fold(tv) == fold_from(scopes_view(ancestors@), current@, tv, i as int),
            decreases tokens.len() - i,
        {
            let ghost before = scopes_view(ancestors@);
            assert(tv[i as int].1 == tokens@[i as int].1@);
            match &tokens[i].1 {
                HierarchyToken::ScopeBegin(b) => {
                    let opened = Scope::new(b.scope_type, b.name.clone(), b.component.clone());
                    ancestors.push(current);
                    assert(scopes_view(ancestors@) =~= before.push(current@));
                    current = opened;
                },
                HierarchyToken::Attribute(a) => {
                    current.add_attribute(a.duplicate());
                },
                HierarchyToken::Vcd(v) => {
                    current.add_signal(v.duplicate());
                },
                HierarchyToken::AttributeEnd => {},
                HierarchyToken::Unknown(_) => {},
                HierarchyToken::ScopeEnd => {
                    match ancestors.pop() {
                        None => {
                            if i + 1 == tokens.len() {
                                return Ok(current);
                            }
                            assert(tv[i + 1].0 == tokens@[i + 1].0);
                            return Err(
                                PositionError::new(
                                    tokens[i + 1].0.position,
                                    FstFileParseErrorKind::TrailingBytes,
                                ),
                            );
                        },
                        Some(parent) => {
                            assert(scopes_view(ancestors@) =~= before.drop_last());
                            assert(parent@ == before.last());
                            let mut parent = parent;
                            parent.add_scope(current);
                            current = parent;
                        },
                    }
                },
            }
            i = i + 1;
        }
        let last: PosistionAndSize = tokens[tokens.len() - 1].0;
        assert(tv.last().0 == last);
        if last.size > usize::MAX - last.position {
            return Err(PositionError::new(usize::MAX, FstFileParseErrorKind::Truncated));
        }
        Err(PositionError::new(last.position + last.size, FstFileParseErrorKind::Truncated))
    }
}

/// A hierarchy block, with what it decodes to once that has been asked for.
#[derive(Debug)]
pub struct HierarchyBlock {
    block: Block,
    decoded: Option<Result<HierarchyContent, PositionError>>,
}

impl View for HierarchyBlock {
    type V = BlockView;

    closed spec fn view(&self) -> BlockView {
        self.block@
    }
}

/// The frames of a block that a decoder was not made for.
pub open spec fn wrong_kind(kind: BlockType) -> Frames {
    fail(0, FstFileParseErrorKind::UnknownBlockKind(kind.code()))
}

/// The tokens of expanded hierarchy data, or the error of the expansion.
/// An error of a token counts its offsets from the start of the expanded
/// data, and is marked as one of expanded data.
pub open spec fn spec_tokens_of(data: Result<Seq<u8>, DecompressReason>) -> Result<
    Seq<(PosistionAndSize, TokenView)>,
    Frames,
> {
    match data {
        Err(reason) => Err(fail(0, FstFileParseErrorKind::DecompressError(reason))),
        Ok(bytes) => match spec_tokens(bytes, 0) {
            Err(f) => Err(in_expanded(f, 0)),
            Ok(tokens) => Ok(tokens),
        },
    }
}

/// The tokens of a block of kind `kind` with payload `payload`: the kind
/// must be one that holds a hierarchy, the payload is expanded, and the
/// result read token by token.
pub open spec fn spec_hierarchy_tokens(kind: BlockType, payload: Seq<u8>, max_size: usize) -> Result<
    Seq<(PosistionAndSize, TokenView)>,
    Frames,
> {
    if !kind.spec_is_hierarchy() {
        Err(wrong_kind(kind))
    } else {
        spec_tokens_of(spec_extract_data(kind, payload, max_size))
    }
}

/// The tree of a block of kind `kind` with payload `payload`.  An error of
/// the fold counts its offsets as the tokens do.
pub open spec fn spec_hierarchy(kind: BlockType, payload: Seq<u8>, max_size: usize) -> Result<
    ScopeView,
    Frames,
> {
    match spec_hierarchy_tokens(kind, payload, max_size) {
        Err(f) => Err(f),
        Ok(tokens) => match spec_fold(tokens) {
            Err(f) => Err(in_expanded(f, 0)),
            Ok(root) => Ok(root),
        },
    }
}

/// The executable result `r` is the outcome `o`.
pub open spec fn hierarchy_agrees(
    r: Result<HierarchyContent, PositionError>,
    o: Result<ScopeView, Frames>,
) -> bool {
    match (r, o) {
        (Ok(content), Ok(root)) => content.root_scope@ == root,
        (Err(e), Err(f)) => e@ == f,
        _ => false,
    }
}

impl HierarchyBlock {
    /// What is kept is what the block decodes to.
    #[verifier::type_invariant]
    closed spec fn coherent(self) -> bool {
        match self.decoded {
            None => true,
            Some(r) => hierarchy_agrees(
                r,
                spec_hierarchy(self.block.block_type, self.block.data@, DEFAULT_MAX_SIZE),
            ),
        }
    }

    /// Takes a framed block as a hierarchy block.
    pub fn from_block(block: Block) -> (b: HierarchyBlock)
        ensures
            b@ == block@,
    {
        HierarchyBlock { block, decoded: None }
    }

    /// The framed block.
    pub fn block(&self) -> (b: &Block)
        ensures
            b@ == self@,
    {
        &self.block
    }

    /// Reads the tokens of the block, with the place of each in the expanded
    /// data, which may have at most `max_size` bytes.
    pub fn get_tokens_with_limit(&self, max_size: usize) -> (r: Result<
        Vec<(PosistionAndSize, HierarchyToken)>,
        PositionError,
    >)
        ensures
            match (r, spec_hierarchy_tokens(self@.kind, self@.payload, max_size)) {
                (Ok(tokens), Ok(t)) => tokens_view(tokens@) == t,
                (Err(e), Err(f)) => e@ == f,
                _ => false,
            },
    {
        if !self.block.block_type.is_hierarchy() {
            return Err(
                PositionError::new(
                    0,
                    FstFileParseErrorKind::UnknownBlockKind(self.block.block_type.as_u8()),
                ),
            );
        }
        match self.block.extract_data_with_limit(max_size) {
            Err(reason) => Err(
                PositionError::new(0, FstFileParseErrorKind::DecompressError(reason)),
            ),
            Ok(data) => match parse_tokens(data.as_slice()) {
                Err(e) => Err(e.expanded(0)),
                Ok(tokens) => Ok(tokens),
            },
        }
    }

    /// Reads the tokens of the block, with the place of each in the expanded
    /// data, which may have at most `DEFAULT_MAX_SIZE` bytes.
    pub fn get_tokens(&self) -> (r: Result<Vec<(PosistionAndSize, HierarchyToken)>, PositionError>)
        ensures
            match (r, spec_hierarchy_tokens(self@.kind, self@.payload, DEFAULT_MAX_SIZE)) {
                (Ok(tokens), Ok(t)) => tokens_view(tokens@) == t,
                (Err(e), Err(f)) => e@ == f,
                _ => false,
            },
    {
        self.get_tokens_with_limit(DEFAULT_MAX_SIZE)
    }

    /// Decodes the block into its tree of scopes; the expanded data may have
    /// at most `max_size` bytes.
    pub fn get_content_with_limit(&self, max_size: usize) -> (r: Result<
        HierarchyContent,
        PositionError,
    >)
        ensures
            hierarchy_agrees(r, spec_hierarchy(self@.kind, self@.payload, max_size)),
    {
        let tokens = match self.get_tokens_with_limit(max_size) {
            Ok(tokens) => tokens,
            Err(e) => {
                return Err(e);
            },
        };
        match HierarchyContent::parse_structual_hierarchy(tokens.as_slice()) {
            Ok(root_scope) => Ok(HierarchyContent { root_scope }),
            Err(e) => Err(e.expanded(0)),
        }
    }

    /// Decodes the block into its tree of scopes; the expanded data may have
    /// at most `DEFAULT_MAX_SIZE` bytes.
    pub fn get_content(&self) -> (r: Result<HierarchyContent, PositionError>)
        ensures
            hierarchy_agrees(r, spec_hierarchy(self@.kind, self@.payload, DEFAULT_MAX_SIZE)),
    {
        self.get_content_with_limit(DEFAULT_MAX_SIZE)
    }

    /// What the block decodes to, with data expanding to at most
    /// `DEFAULT_MAX_SIZE` bytes.  It is decoded when this is first asked for,
    /// and the result is kept.
    pub fn decoded(&mut self) -> (r: Result<&HierarchyContent, &PositionError>)
        ensures
            match (r, spec_hierarchy(old(self)@.kind, old(self)@.payload, DEFAULT_MAX_SIZE)) {
                (Ok(content), Ok(root)) => content.root_scope@ == root,
                (Err(e), Err(f)) => e@ == f,
                _ => false,
            },
            final(self)@ == old(self)@,
    {
        proof {
            use_type_invariant(&*self);
        }
        if self.decoded.is_none() {
            let fresh = self.get_content();
            self.decoded = Some(fresh);
        }
        match &self.decoded {
            Some(Ok(content)) => Ok(content),
            Some(Err(e)) => Err(e),
            None => vstd::pervasive::unreached(),
        }
    }
}

} // verus!
