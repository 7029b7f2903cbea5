//! Specification details particular to Next.js applications.

use vstd::prelude::*;

verus! {

/// A Next.js application.
#[derive(Debug, Clone)]
pub struct NextJsApp {
    pub translation: Option<NextJsTranslationConfig>,
}

/// Which service translates the application's text.
#[derive(Debug, Clone)]
pub enum NextJsTranslationConfig {
    Deepl(NextJsDeeplTranslationConfig),
}

/// Configuration for the DeepL translation service.
#[derive(Debug, Clone)]
pub struct NextJsDeeplTranslationConfig {
    pub lib: String,
}

} // verus!
