//! A plain description of the item that a derive is applied to.
use vstd::prelude::*;

verus! {

/// The delimiter of a group of tokens.
#[derive(Clone, Copy, Debug, PartialEq, Eq, Structural)]
pub enum Delimiter {
    Parenthesis,
    Brace,
    Bracket,
    Invisible,
}

/// One token of an attribute's arguments. A group stands for the whole
/// group, written out.
#[derive(Debug)]
pub enum Token {
    Ident(String),
    /// A punctuation character, and whether the next token follows it
    /// without a space (as the two characters of `==` do).
    Punct(char, bool),
    Literal(String),
    Group(Delimiter, String),
}

/// How an attribute's arguments are written.
#[derive(Debug)]
pub enum Meta {
    /// `#[name]`
    Path,
    /// `#[name(tokens)]`
    List(Vec<Token>),
    /// `#[name = value]`
    NameValue,
}

/// An attribute of the item or of one of its fields.
#[derive(Debug)]
pub struct Attr {
    /// The attribute's name (the path before its arguments).
    pub path: String,
    pub meta: Meta,
}

/// A generic lifetime parameter.
#[derive(Debug)]
pub struct LifetimeParam {
    /// The lifetime, with its leading quote.
    pub lifetime: String,
    /// Whether it is declared with bounds (`'a: 'b`).
    pub has_bounds: bool,
}

/// A generic type parameter.
#[derive(Debug)]
pub struct TypeParam {
    pub ident: String,
    /// Whether it is declared with bounds (`T: Trait`).
    pub has_bounds: bool,
}

/// A generic const parameter.
#[derive(Debug)]
pub struct ConstParam {
    pub ident: String,
}

/// The generics of the item.
#[derive(Debug)]
pub struct Generics {
    pub lifetimes: Vec<LifetimeParam>,
    pub type_params: Vec<TypeParam>,
    pub const_params: Vec<ConstParam>,
    pub has_where_clause: bool,
    /// The parameter list as declared, angle brackets and bounds included,
    /// or empty where there are no parameters.
    pub decl: String,
    /// The where clause as written, or empty where there is none.
    pub where_text: String,
}

/// The type of a field.
#[derive(Debug)]
pub enum Type {
    /// A path type; `ident` is its identifier when the path is a single
    /// identifier without arguments.
    Path { ident: Option<String>, text: String },
    /// Any other type.
    Other { text: String },
}

/// A field of a struct.
#[derive(Debug)]
pub struct FieldDef {
    pub ident: Option<String>,
    pub ty: Type,
    pub attrs: Vec<Attr>,
}

/// The fields of a struct.
#[derive(Debug)]
pub enum Fields {
    Named(Vec<FieldDef>),
    Unnamed,
    Unit,
}

/// What kind of item it is.
#[derive(Debug)]
pub enum Data {
    Struct(Fields),
    Enum,
    Union,
}

/// The item that a derive is applied to.
#[derive(Debug)]
pub struct Definition {
    pub ident: String,
    pub attrs: Vec<Attr>,
    pub generics: Generics,
    pub data: Data,
}

} // verus!
