//! The vocabulary of syntax-node kinds that the rewriting rules inspect.
//!
//! The grammar names each node by a string; the rules only ever distinguish
//! the kinds below, so the model stores this enum and folds every other kind
//! into `Other`.

use vstd::prelude::*;

verus! {

#[derive(Clone, Copy, PartialEq, Eq, Structural, Debug)]
pub enum Kind {
    LBracket,
    RBracket,
    LBrace,
    RBrace,
    LParen,
    RParen,
    Comma,
    Semicolon,
    Dollar,
    Assign,
    PlusAssign,
    MinusAssign,
    StarAssign,
    SlashAssign,
    PercentAssign,
    EqEq,
    EqEqEq,
    NotEq,
    LtGt,
    NotEqEq,
    Gt,
    Lt,
    Ge,
    Le,
    Spaceship,
    Plus,
    Minus,
    Star,
    StarStar,
    Slash,
    Percent,
    KwAnd,
    KwOr,
    KwXor,
    AndAnd,
    OrOr,
    Bang,
    Dot,
    DotAssign,
    QuestionColon,
    QuestionQuestion,
    Question,
    Colon,
    Shr,
    Shl,
    Amp,
    Pipe,
    Caret,
    ShrAssign,
    ShlAssign,
    AmpAssign,
    PipeAssign,
    CaretAssign,
    Arrow,
    NullsafeArrow,
    FatArrow,
    ColonColon,
    KwAs,
    KwExtends,
    KwImplements,
    KwClass,
    KwNull,
    KwString,
    KwBool,
    KwBoolean,
    KwFloat,
    KwInt,
    KwArray,
    KwMixed,
    KwObject,
    KwCallable,
    KwResource,
    KwPrivate,
    KwPublic,
    KwProtected,
    KwReadonly,
    KwFinal,
    KwConst,
    KwEcho,
    KwNamespace,
    KwInterface,
    KwTrait,
    KwNew,
    KwUse,
    Name,
    KwReturn,
    KwFunction,
    KwStatic,
    PhpTag,
    DeclareStatement,
    NamespaceDefinition,
    FunctionDefinition,
    ClassDeclaration,
    NamespaceUseDeclaration,
    ExpressionStatement,
    ArrayCreationExpression,
    DeclareDirective,
    CompoundStatement,
    MatchBlock,
    SwitchBlock,
    AssignmentExpression,
    AnonymousFunction,
    MemberCallExpression,
    DeclarationList,
    VariableName,
    MemberAccessExpression,
    Integer,
    EncapsedString,
    BinaryExpression,
    PropertyElement,
    UnionType,
    NamedType,
    QualifiedName,
    UseList,
    StaticModifier,
    VisibilityModifier,
    AbstractModifier,
    ReadonlyModifier,
    PrimitiveType,
    UnaryOpExpression,
    Argument,
    FormalParameters,
    Program,
    FunctionCallExpression,
    Arguments,
    Text,
    Other,
}

/// The kind that a grammar kind name denotes.
#[verifier::opaque]
pub open spec fn kind_of_name(s: Seq<char>) -> Kind {
    if s == "["@ {
        Kind::LBracket
    } else if s == "]"@ {
        Kind::RBracket
    } else if s == "{"@ {
        Kind::LBrace
    } else if s == "}"@ {
        Kind::RBrace
    } else if s == "("@ {
        Kind::LParen
    } else if s == ")"@ {
        Kind::RParen
    } else if s == ","@ {
        Kind::Comma
    } else if s == ";"@ {
        Kind::Semicolon
    } else if s == "$"@ {
        Kind::Dollar
    } else if s == "="@ {
        Kind::Assign
    } else if s == "+="@ {
        Kind::PlusAssign
    } else if s == "-="@ {
        Kind::MinusAssign
    } else if s == "*="@ {
        Kind::StarAssign
    } else if s == "/="@ {
        Kind::SlashAssign
    } else if s == "%="@ {
        Kind::PercentAssign
    } else if s == "=="@ {
        Kind::EqEq
    } else if s == "==="@ {
        Kind::EqEqEq
    } else if s == "!="@ {
        Kind::NotEq
    } else if s == "<>"@ {
        Kind::LtGt
    } else if s == "!=="@ {
        Kind::NotEqEq
    } else if s == ">"@ {
        Kind::Gt
    } else if s == "<"@ {
        Kind::Lt
    } else if s == ">="@ {
        Kind::Ge
    } else if s == "<="@ {
        Kind::Le
    } else if s == "<=>"@ {
        Kind::Spaceship
    } else if s == "+"@ {
        Kind::Plus
    } else if s == "-"@ {
        Kind::Minus
    } else if s == "*"@ {
        Kind::Star
    } else if s == "**"@ {
        Kind::StarStar
    } else if s == "/"@ {
        Kind::Slash
    } else if s == "%"@ {
        Kind::Percent
    } else if s == "and"@ {
        Kind::KwAnd
    } else if s == "or"@ {
        Kind::KwOr
    } else if s == "xor"@ {
        Kind::KwXor
    } else if s == "&&"@ {
        Kind::AndAnd
    } else if s == "||"@ {
        Kind::OrOr
    } else if s == "!"@ {
        Kind::Bang
    } else if s == "."@ {
        Kind::Dot
    } else if s == ".="@ {
        Kind::DotAssign
    } else if s == "?:"@ {
        Kind::QuestionColon
    } else if s == "??"@ {
        Kind::QuestionQuestion
    } else if s == "?"@ {
        Kind::Question
    } else if s == ":"@ {
        Kind::Colon
    } else if s == ">>"@ {
        Kind::Shr
    } else if s == "<<"@ {
        Kind::Shl
    } else if s == "&"@ {
        Kind::Amp
    } else if s == "|"@ {
        Kind::Pipe
    } else if s == "^"@ {
        Kind::Caret
    } else if s == ">>="@ {
        Kind::ShrAssign
    } else if s == "<<="@ {
        Kind::ShlAssign
    } else if s == "&="@ {
        Kind::AmpAssign
    } else if s == "|="@ {
        Kind::PipeAssign
    } else if s == "^="@ {
        Kind::CaretAssign
    } else if s == "->"@ {
        Kind::Arrow
    } else if s == "?->"@ {
        Kind::NullsafeArrow
    } else if s == "=>"@ {
        Kind::FatArrow
    } else if s == "::"@ {
        Kind::ColonColon
    } else if s == "as"@ {
        Kind::KwAs
    } else if s == "extends"@ {
        Kind::KwExtends
    } else if s == "implements"@ {
        Kind::KwImplements
    } else if s == "class"@ {
        Kind::KwClass
    } else if s == "null"@ {
        Kind::KwNull
    } else if s == "string"@ {
        Kind::KwString
    } else if s == "bool"@ {
        Kind::KwBool
    } else if s == "boolean"@ {
        Kind::KwBoolean
    } else if s == "float"@ {
        Kind::KwFloat
    } else if s == "int"@ {
        Kind::KwInt
    } else if s == "array"@ {
        Kind::KwArray
    } else if s == "mixed"@ {
        Kind::KwMixed
    } else if s == "object"@ {
        Kind::KwObject
    } else if s == "callable"@ {
        Kind::KwCallable
    } else if s == "resource"@ {
        Kind::KwResource
    } else if s == "private"@ {
        Kind::KwPrivate
    } else if s == "public"@ {
        Kind::KwPublic
    } else if s == "protected"@ {
        Kind::KwProtected
    } else if s == "readonly"@ {
        Kind::KwReadonly
    } else if s == "final"@ {
        Kind::KwFinal
    } else if s == "const"@ {
        Kind::KwConst
    } else if s == "echo"@ {
        Kind::KwEcho
    } else if s == "namespace"@ {
        Kind::KwNamespace
    } else if s == "interface"@ {
        Kind::KwInterface
    } else if s == "trait"@ {
        Kind::KwTrait
    } else if s == "new"@ {
        Kind::KwNew
    } else if s == "use"@ {
        Kind::KwUse
    } else if s == "name"@ {
        Kind::Name
    } else if s == "return"@ {
        Kind::KwReturn
    } else if s == "function"@ {
        Kind::KwFunction
    } else if s == "static"@ {
        Kind::KwStatic
    } else if s == "php_tag"@ {
        Kind::PhpTag
    } else if s == "declare_statement"@ {
        Kind::DeclareStatement
    } else if s == "namespace_definition"@ {
        Kind::NamespaceDefinition
    } else if s == "function_definition"@ {
        Kind::FunctionDefinition
    } else if s == "class_declaration"@ {
        Kind::ClassDeclaration
    } else if s == "namespace_use_declaration"@ {
        Kind::NamespaceUseDeclaration
    } else if s == "expression_statement"@ {
        Kind::ExpressionStatement
    } else if s == "array_creation_expression"@ {
        Kind::ArrayCreationExpression
    } else if s == "declare_directive"@ {
        Kind::DeclareDirective
    } else if s == "compound_statement"@ {
        Kind::CompoundStatement
    } else if s == "match_block"@ {
        Kind::MatchBlock
    } else if s == "switch_block"@ {
        Kind::SwitchBlock
    } else if s == "assignment_expression"@ {
        Kind::AssignmentExpression
    } else if s == "anonymous_function"@ {
        Kind::AnonymousFunction
    } else if s == "member_call_expression"@ {
        Kind::MemberCallExpression
    } else if s == "declaration_list"@ {
        Kind::DeclarationList
    } else if s == "variable_name"@ {
        Kind::VariableName
    } else if s == "member_access_expression"@ {
        Kind::MemberAccessExpression
    } else if s == "integer"@ {
        Kind::Integer
    } else if s == "encapsed_string"@ {
        Kind::EncapsedString
    } else if s == "binary_expression"@ {
        Kind::BinaryExpression
    } else if s == "property_element"@ {
        Kind::PropertyElement
    } else if s == "union_type"@ {
        Kind::UnionType
    } else if s == "named_type"@ {
        Kind::NamedType
    } else if s == "qualified_name"@ {
        Kind::QualifiedName
    } else if s == "use_list"@ {
        Kind::UseList
    } else if s == "static_modifier"@ {
        Kind::StaticModifier
    } else if s == "visibility_modifier"@ {
        Kind::VisibilityModifier
    } else if s == "abstract_modifier"@ {
        Kind::AbstractModifier
    } else if s == "readonly_modifier"@ {
        Kind::ReadonlyModifier
    } else if s == "primitive_type"@ {
        Kind::PrimitiveType
    } else if s == "unary_op_expression"@ {
        Kind::UnaryOpExpression
    } else if s == "argument"@ {
        Kind::Argument
    } else if s == "formal_parameters"@ {
        Kind::FormalParameters
    } else if s == "program"@ {
        Kind::Program
    } else if s == "function_call_expression"@ {
        Kind::FunctionCallExpression
    } else if s == "arguments"@ {
        Kind::Arguments
    } else if s == "text"@ {
        Kind::Text
    } else {
        Kind::Other
    }
}

/// Compares a kind name against a literal.
fn name_is(s: &String, lit: &str) -> (r: bool)
    ensures
        r == (s@ == lit@),
{
    *s == lit.to_owned()
}

/// Classifies a grammar kind name.
pub fn classify_kind(s: &String) -> (r: Kind)
    ensures
        r == kind_of_name(s@),
{
    proof {
        reveal(kind_of_name);
    }
    if name_is(s, "[") {
        Kind::LBracket
    } else if name_is(s, "]") {
        Kind::RBracket
    } else if name_is(s, "{") {
        Kind::LBrace
    } else if name_is(s, "}") {
        Kind::RBrace
    } else if name_is(s, "(") {
        Kind::LParen
    } else if name_is(s, ")") {
        Kind::RParen
    } else if name_is(s, ",") {
        Kind::Comma
    } else if name_is(s, ";") {
        Kind::Semicolon
    } else if name_is(s, "$") {
        Kind::Dollar
    } else if name_is(s, "=") {
        Kind::Assign
    } else if name_is(s, "+=") {
        Kind::PlusAssign
    } else if name_is(s, "-=") {
        Kind::MinusAssign
    } else if name_is(s, "*=") {
        Kind::StarAssign
    } else if name_is(s, "/=") {
        Kind::SlashAssign
    } else if name_is(s, "%=") {
        Kind::PercentAssign
    } else if name_is(s, "==") {
        Kind::EqEq
    } else if name_is(s, "===") {
        Kind::EqEqEq
    } else if name_is(s, "!=") {
        Kind::NotEq
    } else if name_is(s, "<>") {
        Kind::LtGt
    } else if name_is(s, "!==") {
        Kind::NotEqEq
    } else if name_is(s, ">") {
        Kind::Gt
    } else if name_is(s, "<") {
        Kind::Lt
    } else if name_is(s, ">=") {
        Kind::Ge
    } else if name_is(s, "<=") {
        Kind::Le
    } else if name_is(s, "<=>") {
        Kind::Spaceship
    } else if name_is(s, "+") {
        Kind::Plus
    } else if name_is(s, "-") {
        Kind::Minus
    } else if name_is(s, "*") {
        Kind::Star
    } else if name_is(s, "**") {
        Kind::StarStar
    } else if name_is(s, "/") {
        Kind::Slash
    } else if name_is(s, "%") {
        Kind::Percent
    } else if name_is(s, "and") {
        Kind::KwAnd
    } else if name_is(s, "or") {
        Kind::KwOr
    } else if name_is(s, "xor") {
        Kind::KwXor
    } else if name_is(s, "&&") {
        Kind::AndAnd
    } else if name_is(s, "||") {
        Kind::OrOr
    } else if name_is(s, "!") {
        Kind::Bang
    } else if name_is(s, ".") {
        Kind::Dot
    } else if name_is(s, ".=") {
        Kind::DotAssign
    } else if name_is(s, "?:") {
        Kind::QuestionColon
    } else if name_is(s, "??") {
        Kind::QuestionQuestion
    } else if name_is(s, "?") {
        Kind::Question
    } else if name_is(s, ":") {
        Kind::Colon
    } else if name_is(s, ">>") {
        Kind::Shr
    } else if name_is(s, "<<") {
        Kind::Shl
    } else if name_is(s, "&") {
        Kind::Amp
    } else if name_is(s, "|") {
        Kind::Pipe
    } else if name_is(s, "^") {
        Kind::Caret
    } else if name_is(s, ">>=") {
        Kind::ShrAssign
    } else if name_is(s, "<<=") {
        Kind::ShlAssign
    } else if name_is(s, "&=") {
        Kind::AmpAssign
    } else if name_is(s, "|=") {
        Kind::PipeAssign
    } else if name_is(s, "^=") {
        Kind::CaretAssign
    } else if name_is(s, "->") {
        Kind::Arrow
    } else if name_is(s, "?->") {
        Kind::NullsafeArrow
    } else if name_is(s, "=>") {
        Kind::FatArrow
    } else if name_is(s, "::") {
        Kind::ColonColon
    } else if name_is(s, "as") {
        Kind::KwAs
    } else if name_is(s, "extends") {
        Kind::KwExtends
    } else if name_is(s, "implements") {
        Kind::KwImplements
    } else if name_is(s, "class") {
        Kind::KwClass
    } else if name_is(s, "null") {
        Kind::KwNull
    } else if name_is(s, "string") {
        Kind::KwString
    } else if name_is(s, "bool") {
        Kind::KwBool
    } else if name_is(s, "boolean") {
        Kind::KwBoolean
    } else if name_is(s, "float") {
        Kind::KwFloat
    } else if name_is(s, "int") {
        Kind::KwInt
    } else if name_is(s, "array") {
        Kind::KwArray
    } else if name_is(s, "mixed") {
        Kind::KwMixed
    } else if name_is(s, "object") {
        Kind::KwObject
    } else if name_is(s, "callable") {
        Kind::KwCallable
    } else if name_is(s, "resource") {
        Kind::KwResource
    } else if name_is(s, "private") {
        Kind::KwPrivate
    } else if name_is(s, "public") {
        Kind::KwPublic
    } else if name_is(s, "protected") {
        Kind::KwProtected
    } else if name_is(s, "readonly") {
        Kind::KwReadonly
    } else if name_is(s, "final") {
        Kind::KwFinal
    } else if name_is(s, "const") {
        Kind::KwConst
    } else if name_is(s, "echo") {
        Kind::KwEcho
    } else if name_is(s, "namespace") {
        Kind::KwNamespace
    } else if name_is(s, "interface") {
        Kind::KwInterface
    } else if name_is(s, "trait") {
        Kind::KwTrait
    } else if name_is(s, "new") {
        Kind::KwNew
    } else if name_is(s, "use") {
        Kind::KwUse
    } else if name_is(s, "name") {
        Kind::Name
    } else if name_is(s, "return") {
        Kind::KwReturn
    } else if name_is(s, "function") {
        Kind::KwFunction
    } else if name_is(s, "static") {
        Kind::KwStatic
    } else if name_is(s, "php_tag") {
        Kind::PhpTag
    } else if name_is(s, "declare_statement") {
        Kind::DeclareStatement
    } else if name_is(s, "namespace_definition") {
        Kind::NamespaceDefinition
    } else if name_is(s, "function_definition") {
        Kind::FunctionDefinition
    } else if name_is(s, "class_declaration") {
        Kind::ClassDeclaration
    } else if name_is(s, "namespace_use_declaration") {
        Kind::NamespaceUseDeclaration
    } else if name_is(s, "expression_statement") {
        Kind::ExpressionStatement
    } else if name_is(s, "array_creation_expression") {
        Kind::ArrayCreationExpression
    } else if name_is(s, "declare_directive") {
        Kind::DeclareDirective
    } else if name_is(s, "compound_statement") {
        Kind::CompoundStatement
    } else if name_is(s, "match_block") {
        Kind::MatchBlock
    } else if name_is(s, "switch_block") {
        Kind::SwitchBlock
    } else if name_is(s, "assignment_expression") {
        Kind::AssignmentExpression
    } else if name_is(s, "anonymous_function") {
        Kind::AnonymousFunction
    } else if name_is(s, "member_call_expression") {
        Kind::MemberCallExpression
    } else if name_is(s, "declaration_list") {
        Kind::DeclarationList
    } else if name_is(s, "variable_name") {
        Kind::VariableName
    } else if name_is(s, "member_access_expression") {
        Kind::MemberAccessExpression
    } else if name_is(s, "integer") {
        Kind::Integer
    } else if name_is(s, "encapsed_string") {
        Kind::EncapsedString
    } else if name_is(s, "binary_expression") {
        Kind::BinaryExpression
    } else if name_is(s, "property_element") {
        Kind::PropertyElement
    } else if name_is(s, "union_type") {
        Kind::UnionType
    } else if name_is(s, "named_type") {
        Kind::NamedType
    } else if name_is(s, "qualified_name") {
        Kind::QualifiedName
    } else if name_is(s, "use_list") {
        Kind::UseList
    } else if name_is(s, "static_modifier") {
        Kind::StaticModifier
    } else if name_is(s, "visibility_modifier") {
        Kind::VisibilityModifier
    } else if name_is(s, "abstract_modifier") {
        Kind::AbstractModifier
    } else if name_is(s, "readonly_modifier") {
        Kind::ReadonlyModifier
    } else if name_is(s, "primitive_type") {
        Kind::PrimitiveType
    } else if name_is(s, "unary_op_expression") {
        Kind::UnaryOpExpression
    } else if name_is(s, "argument") {
        Kind::Argument
    } else if name_is(s, "formal_parameters") {
        Kind::FormalParameters
    } else if name_is(s, "program") {
        Kind::Program
    } else if name_is(s, "function_call_expression") {
        Kind::FunctionCallExpression
    } else if name_is(s, "arguments") {
        Kind::Arguments
    } else if name_is(s, "text") {
        Kind::Text
    } else {
        Kind::Other
    }
}

} // verus!
