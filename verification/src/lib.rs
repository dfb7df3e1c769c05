//! A multi-language static source-code auditor: framework endpoint
//! extraction, ordered-rule line scanning, and unauthorized-access
//! response classification, with verified contracts.
pub mod enums;
pub mod go;
pub mod java;
pub mod model;
pub mod php;
pub mod project;
pub mod rulecheck;
pub mod spring;
pub mod unauthorized;
pub mod xml;
pub mod strutil;

pub use enums::{Framwork, LangType, ORM, RuleCondition};
pub use model::{empty_rule, Config, Interfaces, Match, Rule, ScanCounters, ScanReport,
    SourceFile, Unauthorized, UnauthorizedInterface, UnauthorizedRule, VulnerabilityHit};
pub use project::{Application, GOProject, JAVAProject, PHPProject};
pub use rulecheck::RuleCheck;
pub use strutil::PathUtil;
