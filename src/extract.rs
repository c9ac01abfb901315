//! The extraction entry point: from a program to its platform and reward
//! records, with the failures of sections that could not be resolved.
use vstd::prelude::*;
use crate::diagnostics::{Diagnostic, ExtractError};
use crate::locate::{extract_root_element, root_function_of};
use crate::node::{Call, Function, Program};
use crate::records::{
    derefs, get_platforms, get_rewards, records_in, views, Platform, PlatformView, Reward,
    RewardView,
};
use crate::sections::{get_all_top_level_elements, resolve_section, section_calls_of, section_function_of};

verus! {

/// Where the data sits in the bundle: the name of the create-root callee,
/// how many sections the root element renders, and the positions of the
/// platform and reward sections among them.
#[derive(Clone, Debug)]
pub struct Layout {
    pub create_root: String,
    pub section_count: usize,
    pub platform_section: usize,
    pub reward_section: usize,
}

impl Layout {
    /// The layout of today's bundle: `createRoot`, seven sections, platforms
    /// second and rewards third.
    pub fn standard() -> (r: Layout)
        ensures
            r.create_root@ == "createRoot"@,
            r.section_count == 7,
            r.platform_section == 1,
            r.reward_section == 2,
    {
        Layout {
            create_root: String::from_str("createRoot"),
            section_count: 7,
            platform_section: 1,
            reward_section: 2,
        }
    }
}

/// The records of one extraction, in extraction order.
#[derive(Clone, Debug, PartialEq, Eq)]
pub struct ExtractedData {
    pub platforms: Vec<Platform>,
    pub rewards: Vec<Reward>,
}

/// What an [`ExtractedData`] holds.
pub struct ExtractedDataView {
    pub platforms: Seq<PlatformView>,
    pub rewards: Seq<RewardView>,
}

impl View for ExtractedData {
    type V = ExtractedDataView;

    open spec fn view(&self) -> ExtractedDataView {
        ExtractedDataView { platforms: views(self.platforms@), rewards: views(self.rewards@) }
    }
}

/// A successful extraction: the records, and the failure of the one section
/// that could not be resolved, if any; such a section contributes nothing.
#[derive(Clone, Debug, PartialEq, Eq)]
pub struct Extraction {
    pub data: ExtractedData,
    pub platform_failure: Option<Diagnostic>,
    pub reward_failure: Option<Diagnostic>,
}

/// What an [`Extraction`] holds.
pub struct ExtractionView {
    pub data: ExtractedDataView,
    pub platform_failure: Option<Diagnostic>,
    pub reward_failure: Option<Diagnostic>,
}

impl View for Extraction {
    type V = ExtractionView;

    open spec fn view(&self) -> ExtractionView {
        ExtractionView {
            data: self.data@,
            platform_failure: self.platform_failure,
            reward_failure: self.reward_failure,
        }
    }
}

/// The section calls of `root`, when there are `expected` of them.
pub open spec fn checked_sections_of(root: Function, expected: usize) -> Result<Seq<Call>, ExtractError> {
    match section_calls_of(root) {
        Err(d) => Err(ExtractError::RootNotFound(d)),
        Ok(calls) => if calls.len() == expected {
            Ok(calls)
        } else {
            Err(ExtractError::SectionCountMismatch { expected, found: calls.len() as usize })
        },
    }
}

/// The records of a section that resolved, or none.
pub open spec fn section_records_of<T: crate::records::Item>(f: Result<Function, Diagnostic>) -> Seq<T::V> {
    match f {
        Ok(f) => records_in::<T>(f),
        Err(_) => Seq::empty(),
    }
}

/// The failure of a section, if it did not resolve.
pub open spec fn failure_of(f: Result<Function, Diagnostic>) -> Option<Diagnostic> {
    match f {
        Ok(_) => None,
        Err(d) => Some(d),
    }
}

/// The extraction of `p` under `layout`. Locating the root element and its
/// section list, and the count of sections, are fatal; each requested
/// section then resolves or fails on its own, and only the failure of both
/// is fatal.
pub open spec fn extraction_of(p: Program, layout: Layout) -> Result<ExtractionView, ExtractError> {
    match root_function_of(p, layout.create_root@) {
        Err(d) => Err(ExtractError::RootNotFound(d)),
        Ok(root) => match checked_sections_of(root, layout.section_count) {
            Err(e) => Err(e),
            Ok(calls) => {
                let pf = section_function_of(p, calls, layout.platform_section as int);
                let rf = section_function_of(p, calls, layout.reward_section as int);
                match (pf, rf) {
                    (Err(a), Err(b)) => Err(ExtractError::SectionsUnresolved { platforms: a, rewards: b }),
                    _ => Ok(
                        ExtractionView {
                            data: ExtractedDataView {
                                platforms: section_records_of::<Platform>(pf),
                                rewards: section_records_of::<Reward>(rf),
                            },
                            platform_failure: failure_of(pf),
                            reward_failure: failure_of(rf),
                        },
                    ),
                }
            },
        },
    }
}

/// Extraction depends on the tree alone: equal programs extract, under one
/// layout, to equal records in equal order, or fail alike.
pub proof fn extraction_is_deterministic(p: Program, q: Program, layout: Layout)
    requires
        p == q,
    ensures
        extraction_of(p, layout) == extraction_of(q, layout),
{
}

/// A root element that renders another number of section calls than the
/// layout expects yields `SectionCountMismatch`, never records of a section
/// picked by a meaningless position.
pub proof fn section_count_mismatch_is_fatal(p: Program, layout: Layout, root: Function, calls: Seq<Call>)
    requires
        root_function_of(p, layout.create_root@) == Ok::<Function, Diagnostic>(root),
        section_calls_of(root) == Ok::<Seq<Call>, Diagnostic>(calls),
        calls.len() != layout.section_count,
    ensures
        extraction_of(p, layout) == Err::<ExtractionView, ExtractError>(
            ExtractError::SectionCountMismatch { expected: layout.section_count, found: calls.len() as usize },
        ),
{
}

/// The section calls of a root render function, in order, known to be as
/// many as the layout expects.
pub struct TopLevelElements<'a> {
    pub calls: Vec<&'a Call>,
}

/// The section calls of `root`, as [`checked_sections_of`] states.
pub fn extract_top_level_elements<'a>(root: &'a Function, expected: usize) -> (r: Result<TopLevelElements<'a>, ExtractError>)
    ensures
        match r {
            Ok(t) => checked_sections_of(*root, expected) == Ok::<Seq<Call>, ExtractError>(derefs(t.calls@)),
            Err(e) => checked_sections_of(*root, expected) == Err::<Seq<Call>, ExtractError>(e),
        },
{
    let calls = match get_all_top_level_elements(root) {
        Ok(calls) => calls,
        Err(d) => return Err(ExtractError::RootNotFound(d)),
    };
    if calls.len() != expected {
        return Err(ExtractError::SectionCountMismatch { expected, found: calls.len() });
    }
    Ok(TopLevelElements { calls })
}

impl ExtractedData {
    /// Extracts the platform and reward records of `program`, as
    /// [`extraction_of`] states.
    pub fn extract(program: &Program, layout: &Layout) -> (r: Result<Extraction, ExtractError>)
        ensures
            match r {
                Ok(x) => extraction_of(*program, *layout) == Ok::<ExtractionView, ExtractError>(x@),
                Err(e) => extraction_of(*program, *layout) == Err::<ExtractionView, ExtractError>(e),
            },
    {
        let root = match extract_root_element(program, layout.create_root.as_str()) {
            Ok(f) => f,
            Err(d) => return Err(ExtractError::RootNotFound(d)),
        };
        let sections = extract_top_level_elements(root, layout.section_count)?;
        let pf = resolve_section(program, &sections.calls, layout.platform_section);
        let rf = resolve_section(program, &sections.calls, layout.reward_section);
        match (pf, rf) {
            (Err(a), Err(b)) => Err(ExtractError::SectionsUnresolved { platforms: a, rewards: b }),
            (pf, rf) => {
                let (platforms, platform_failure) = match pf {
                    Ok(f) => (get_platforms(f), None),
                    Err(d) => (Vec::new(), Some(d)),
                };
                let (rewards, reward_failure) = match rf {
                    Ok(f) => (get_rewards(f), None),
                    Err(d) => (Vec::new(), Some(d)),
                };
                let data = ExtractedData { platforms, rewards };
                proof {
                    assert(views(data.platforms@) =~= section_records_of::<Platform>(
                        section_function_of(*program, derefs(sections.calls@), layout.platform_section as int),
                    ));
                    assert(views(data.rewards@) =~= section_records_of::<Reward>(
                        section_function_of(*program, derefs(sections.calls@), layout.reward_section as int),
                    ));
                }
                Ok(Extraction { data, platform_failure, reward_failure })
            },
        }
    }
}

} // verus!
