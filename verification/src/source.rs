//! The source wrapper: origin text and introduction metadata, immutable
//! once captured. Purely descriptive — it has no control surface and no
//! error paths beyond absence.

use vstd::prelude::*;
use crate::debuggee::{Debuggee, SourceRecord};
use crate::object::Object;
use crate::script::Script;
use crate::value::clone_opt_string;

verus! {

/// An enum describing how a source was introduced.
#[derive(Clone, Copy, Debug, PartialEq, Eq, Structural)]
pub enum IntroductionType {
    /// A source introduced by a call to `eval`.
    Eval,
    /// A source introduced by a DOM event handler.
    EventHandler,
    /// A source introduced by a function call.
    Function,
    /// A source introduced by a call to `importScripts`.
    ImportScripts,
    /// A source introduced by a javascript: URL.
    JavaScriptURL,
    /// A source introduced by a <script> element.
    ScriptElement,
    /// A source introduced by a call to `setInterval`.
    SetInterval,
    /// A source introduced by a call to `setTimeout`.
    SetTimeout,
    /// A source introduced by a call to `Worker`.
    Worker,
}

/// A wrapper to a script source.
#[derive(Clone, Copy, Debug, PartialEq, Eq, Structural)]
pub struct Source {
    /// The position of the wrapped source in the debuggee state.
    pub index: usize,
}

impl Source {
    /// Whether the handle names a source of the given debuggee state.
    pub open spec fn in_bounds(&self, dbg: &Debuggee) -> bool {
        (self.index as int) < dbg.sources@.len()
    }

    /// The record the handle names.
    pub open spec fn record(&self, dbg: &Debuggee) -> SourceRecord {
        dbg.sources@[self.index as int]
    }

    /// Returns a unique identifier for the wrapped source. This allows
    /// different wrappers to the same source to be compared.
    pub fn canonical_id(&self, dbg: &Debuggee) -> (r: String)
        requires
            dbg.wf(),
            self.in_bounds(dbg),
        ensures
            r == self.record(dbg).canonical_id,
    {
        dbg.sources[self.index].canonical_id.clone()
    }

    /// Returns the text of the wrapped source.
    pub fn text(&self, dbg: &Debuggee) -> (r: String)
        requires
            dbg.wf(),
            self.in_bounds(dbg),
        ensures
            r == self.record(dbg).text,
    {
        dbg.sources[self.index].text.clone()
    }

    /// Returns the url of the document from which the wrapped source was
    /// loaded.
    pub fn url(&self, dbg: &Debuggee) -> (r: String)
        requires
            dbg.wf(),
            self.in_bounds(dbg),
        ensures
            r == self.record(dbg).url,
    {
        dbg.sources[self.index].url.clone()
    }

    /// If the wrapped source was introduced by a DOM element, returns a
    /// wrapper to that DOM element. Otherwise, returns `None`.
    pub fn element(&self, dbg: &Debuggee) -> (r: Option<Object>)
        requires
            dbg.wf(),
            self.in_bounds(dbg),
        ensures
            r == self.record(dbg).element,
    {
        dbg.sources[self.index].element
    }

    /// If the wrapped source was introduced by an attribute on a DOM
    /// element, returns the name of that attribute. Otherwise, returns
    /// `None`.
    pub fn element_attribute_name(&self, dbg: &Debuggee) -> (r: Option<String>)
        requires
            dbg.wf(),
            self.in_bounds(dbg),
        ensures
            r == self.record(dbg).element_attribute_name,
    {
        clone_opt_string(&dbg.sources[self.index].element_attribute_name)
    }

    /// If the wrapped source was introduced by a function call in the
    /// debuggee, returns the offset of the bytecode for the call.
    /// Otherwise, returns `None`.
    pub fn introduction_offset(&self, dbg: &Debuggee) -> (r: Option<u32>)
        requires
            dbg.wf(),
            self.in_bounds(dbg),
        ensures
            r == self.record(dbg).introduction_offset,
    {
        dbg.sources[self.index].introduction_offset
    }

    /// If the wrapped source was introduced by a function call in the
    /// debuggee, returns a wrapper to the script containing the call.
    /// Otherwise, returns `None`.
    pub fn introduction_script(&self, dbg: &Debuggee) -> (r: Option<Script>)
        requires
            dbg.wf(),
            self.in_bounds(dbg),
        ensures
            r == self.record(dbg).introduction_script,
    {
        dbg.sources[self.index].introduction_script
    }

    /// Returns the introduction type of the wrapped source. If the
    /// introduction type of the wrapped source is unknown, returns `None`
    /// instead.
    pub fn introduction_type(&self, dbg: &Debuggee) -> (r: Option<IntroductionType>)
        requires
            dbg.wf(),
            self.in_bounds(dbg),
        ensures
            r == self.record(dbg).introduction_type,
    {
        dbg.sources[self.index].introduction_type
    }

    /// If the wrapped source is source mapped, and the URL of the source
    /// map is known, returns that URL. Otherwise, returns `None`.
    pub fn source_map_url(&self, dbg: &Debuggee) -> (r: Option<String>)
        requires
            dbg.wf(),
            self.in_bounds(dbg),
        ensures
            r == self.record(dbg).source_map_url,
    {
        clone_opt_string(&dbg.sources[self.index].source_map_url)
    }
}

} // verus!
