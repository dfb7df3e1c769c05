//! The closed variant sets the auditor dispatches on.
use vstd::prelude::*;

verus! {

/// The language of the audited project.
#[derive(Debug, Clone, Copy, PartialEq, Eq, Structural)]
pub enum LangType {
    JAVA,
    PHP,
    GO,
}

/// How a rule's keyword is applied to a line: as a plain substring or as a
/// regular-expression pattern.
#[derive(Debug, Clone, Copy, PartialEq, Eq, Structural)]
pub enum RuleCondition {
    Contain,
    Regex,
}

/// The web framework whose endpoint conventions are extracted.
#[derive(Debug, Clone, Copy, PartialEq, Eq, Structural)]
pub enum Framwork {
    Spring,
    Struts,
    Struts2,
    Laravel,
    ThinkPhp,
    YII,
    Unspecified,
}

/// The ORM framework in use, for the SQL-injection pass.
#[derive(Debug, Clone, Copy, PartialEq, Eq, Structural)]
pub enum ORM {
    Mybatis,
    Hibernate,
    Unspecified,
}

} // verus!
