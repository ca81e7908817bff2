//! The per-run state machine.
//!
//! One run drains a queue of targets.  Each target is fetched, its page
//! scanned for hyperlink and image assets inside the content region, its
//! directories created where missing, its assets and page stored, and its
//! outcome appended to the run report, which is written once at the end.
//! The machine decides; the caller performs: every network or filesystem
//! step is an [`Action`] handed out by [`Manager::run`], answered by the
//! matching [`Event`].  The run clock is captured once and never changes
//! within a run.

use crate::assets::origin_of;
use crate::assets::resolved_set;
use crate::clock::Today;
use crate::config::ConfigPath;
use crate::config::Paths;
use crate::config::path_str;
use crate::report::Report;
use crate::report::report_blob;
use crate::scanner::full_scan;
use crate::scanner::proper_scan_bytes;
use crate::storage::Department;
use crate::storage::create_plan_spec;
use crate::storage::file_str;
use crate::storage::location_str;
use crate::storage::nodata_str;
use crate::storage::now_str;
use crate::storage::today_str;
use crate::target::Target;
use crate::target::Targets;
use vstd::prelude::*;
use vstd::string::StringSliceAdditionalSpecFns;

verus! {

/// Where the machine stands between two events.
#[derive(Clone, Copy)]
pub enum Phase {
    Idle,
    AwaitPage,
    AwaitPageDirs,
    AwaitStore,
    AwaitReportDirs,
    AwaitReport,
    Done,
}

/// What the caller reports back to the machine.
pub enum Event {
    Start,
    PageFetched(Option<Vec<u8>>),
    DirsChecked { root_exists: bool, date_exists: bool, time_exists: bool },
    PageStored { created_ok: bool, wrote_page: bool },
    ReportStored { created_ok: bool, wrote_report: bool },
}

/// What the machine asks the caller to perform next.  A `Fetch` whose
/// `delay` flag is set asks the caller to suspend for the fixed throttle
/// delay after dispatching the fetch, before anything more is dispatched.
pub enum Action {
    Fetch { url: String, delay: bool },
    CheckDirs { root: String, date: String, time: String },
    StorePage {
        creates: Vec<String>,
        asset_dir: String,
        assets: Vec<Vec<u8>>,
        page_path: String,
        page: Vec<u8>,
    },
    WriteReport { creates: Vec<String>, path: String, data: String },
    Finished { result: String },
    Failed { message: String },
}

/// The marker opening the content region.
pub open spec fn region_start_bytes() -> Seq<u8> {
    ("id=\"content\"").spec_bytes()
}

/// The marker closing the content region.
pub open spec fn region_end_bytes() -> Seq<u8> {
    ("class=\"layout-csun--footer\"").spec_bytes()
}

/// The hyperlink tag marker.
pub open spec fn link_tag_bytes() -> Seq<u8> {
    ("<a ").spec_bytes()
}

/// The hyperlink attribute marker.
pub open spec fn link_attr_bytes() -> Seq<u8> {
    ("href").spec_bytes()
}

/// The image tag marker.
pub open spec fn image_tag_bytes() -> Seq<u8> {
    ("<img ").spec_bytes()
}

/// The image attribute marker.
pub open spec fn image_attr_bytes() -> Seq<u8> {
    ("src").spec_bytes()
}

/// The substring an attribute value must hold to count as an asset.
pub open spec fn filter_bytes() -> Seq<u8> {
    ("/sites/default/files/").spec_bytes()
}

/// The delimiter closing an attribute value.
pub open spec fn delim_bytes() -> Seq<u8> {
    ("\"").spec_bytes()
}

/// The hyperlink assets of a page: its content-region scan for `<a ` /
/// `href` values holding the filter.
pub open spec fn link_matches(body: Seq<u8>) -> Set<Seq<u8>> {
    full_scan(
        body,
        region_start_bytes(),
        region_end_bytes(),
        link_tag_bytes(),
        link_attr_bytes(),
        filter_bytes(),
        delim_bytes(),
    )
}

/// The image assets of a page: its content-region scan for `<img ` / `src`
/// values holding the filter.
pub open spec fn image_matches(body: Seq<u8>) -> Set<Seq<u8>> {
    full_scan(
        body,
        region_start_bytes(),
        region_end_bytes(),
        image_tag_bytes(),
        image_attr_bytes(),
        filter_bytes(),
        delim_bytes(),
    )
}

/// Whether an HTTP status counts as success: any status in the 2xx range.
pub fn status_is_success(code: u16) -> (r: bool)
    ensures
        r == (200 <= code < 300),
{
    200 <= code && code < 300
}

/// The state machine of one run.
pub struct Manager {
    pub dept_root: Paths,
    pub base_url: Paths,
    pub targets: Targets,
    pub today: Today,
    pub report: Report,
    pub current: Option<Department>,
    pub pending_page: Option<Vec<u8>>,
    pub pending_assets: Vec<Vec<u8>>,
    pub count: u64,
    pub phase: Phase,
}

/// What never changes across a step: the resolved roles, the run clock,
/// and the report's storage binding.
pub open spec fn frame(pre: Manager, post: Manager) -> bool {
    &&& post.dept_root == pre.dept_root
    &&& post.base_url == pre.base_url
    &&& post.today == pre.today
    &&& post.report.info == pre.report.info
}

/// How the machine moves on once a target is finished or skipped: the next
/// target is taken from the back of the queue and fetched, and every third
/// fetch carries the throttle flag, telling the caller to suspend for the
/// fixed delay after dispatching it; an empty queue turns to the report,
/// whose directory levels are checked first.
pub open spec fn advances(pre: Manager, post: Manager, a: Action) -> bool {
    &&& frame(pre, post)
    &&& if pre.targets.targets@.len() > 0 {
        let t = pre.targets.targets@.last();
        &&& post.targets.targets@ == pre.targets.targets@.drop_last()
        &&& post.phase is AwaitPage
        &&& (post.current matches Some(d) && d.path == t && d.today == pre.today && d.base
            == pre.dept_root)
        &&& (a matches Action::Fetch { url, delay } && url@ == path_str(pre.base_url) + t.base@
            + "/"@ + t.extension@ && delay == (pre.count + 1 == 3))
        &&& post.count == (if pre.count + 1 == 3 {
            0
        } else {
            pre.count + 1
        })
    } else {
        &&& post.targets.targets@ == pre.targets.targets@
        &&& post.count == pre.count
        &&& post.phase is AwaitReportDirs
        &&& (a matches Action::CheckDirs { root, date, time } && root@ == location_str(
            pre.report.info,
        ) && date@ == today_str(pre.report.info) && time@ == now_str(pre.report.info))
    }
}

/// Taking in a fetched page: the scan's resolved assets and the page wait
/// in the machine, and the caller is asked to check the three directory
/// levels of the current target.
pub open spec fn scanned_step(pre: Manager, post: Manager, body: Seq<u8>, a: Action) -> bool {
    &&& frame(pre, post)
    &&& post.report == pre.report
    &&& post.targets == pre.targets
    &&& post.count == pre.count
    &&& post.current == pre.current
    &&& post.phase is AwaitPageDirs
    &&& (post.pending_page matches Some(b) && b@ == body)
    &&& post.pending_assets.deep_view().to_set() == resolved_set(
        link_matches(body).union(image_matches(body)),
        origin_of(path_str(pre.base_url)),
    )
    &&& (pre.current matches Some(d) && a matches Action::CheckDirs { root, date, time } && root@
        == location_str(d) && date@ == today_str(d) && time@ == now_str(d))
}

/// Handing out the storage work for the fetched page: exactly the missing
/// directory levels, the target's asset directory, the waiting asset URLs,
/// and the page bytes under the target's file path.
pub open spec fn store_handout(
    pre: Manager,
    post: Manager,
    root_exists: bool,
    date_exists: bool,
    time_exists: bool,
    a: Action,
) -> bool {
    &&& frame(pre, post)
    &&& post.report == pre.report
    &&& post.targets == pre.targets
    &&& post.count == pre.count
    &&& post.current == pre.current
    &&& post.phase is AwaitStore
    &&& (pre.current matches Some(d) && a matches Action::StorePage {
        creates,
        asset_dir,
        assets,
        page_path,
        page,
    } && creates.deep_view() == create_plan_spec(d, root_exists, date_exists, time_exists)
        && asset_dir@ == now_str(d) + "files/"@ && assets.deep_view()
        == pre.pending_assets.deep_view() && page_path@ == file_str(d) && (
    pre.pending_page matches Some(b) && page@ == b@))
}

/// Recording a stored page: when its directories were created, the report
/// gains exactly one entry — the file path on success, the no-data
/// fallback on a failed write — and none otherwise; then the machine moves
/// on.
pub open spec fn stored_step(
    pre: Manager,
    post: Manager,
    created_ok: bool,
    wrote_page: bool,
    a: Action,
) -> bool {
    &&& pre.current matches Some(d) && (created_ok ==> post.report.data@.len()
        == pre.report.data@.len() + 1 && post.report.data@.drop_last() == pre.report.data@
        && post.report.data@.last()@ == (if wrote_page {
        file_str(d)
    } else {
        nodata_str(d)
    }))
    &&& (!created_ok ==> post.report.data@ == pre.report.data@)
    &&& advances(pre_with_report(pre, post), post, a)
}

/// The pre-state with the post-state's report, for speaking about the
/// move that follows a report change.
pub open spec fn pre_with_report(pre: Manager, post: Manager) -> Manager {
    Manager { report: post.report, ..pre }
}

/// Handing out the report write: exactly the missing directory levels
/// under the reports root, the report's file path, and the rendered text.
pub open spec fn report_handout(
    pre: Manager,
    post: Manager,
    root_exists: bool,
    date_exists: bool,
    time_exists: bool,
    a: Action,
) -> bool {
    &&& frame(pre, post)
    &&& post.report == pre.report
    &&& post.targets == pre.targets
    &&& post.count == pre.count
    &&& post.phase is AwaitReport
    &&& (a matches Action::WriteReport { creates, path, data } && creates.deep_view()
        == create_plan_spec(pre.report.info, root_exists, date_exists, time_exists) && path@
        == file_str(pre.report.info) && data@ == report_blob(pre.report.data.deep_view()))
}

/// Ending the run: a failed report-directory creation fails the run; else
/// the run finishes with the report's path, or with the no-data fallback
/// when the report write itself failed.
pub open spec fn finish_step(
    pre: Manager,
    post: Manager,
    created_ok: bool,
    wrote_report: bool,
    a: Action,
) -> bool {
    &&& frame(pre, post)
    &&& post.report == pre.report
    &&& post.phase is Done
    &&& (!created_ok ==> a is Failed)
    &&& (created_ok && wrote_report ==> (a matches Action::Finished { result } && result@
        == file_str(pre.report.info)))
    &&& (created_ok && !wrote_report ==> (a matches Action::Finished { result } && result@
        == nodata_str(pre.report.info)))
}

impl Manager {
    /// The machine's well-formedness: the throttle counter stays inside its
    /// window, the report and every in-flight department carry the one run
    /// clock, and each phase holds the state it needs.
    pub open spec fn wf(self) -> bool {
        &&& self.count < 3
        &&& self.report.info.today == self.today
        &&& (self.current matches Some(d) ==> d.today == self.today && d.base == self.dept_root)
        &&& (self.phase is AwaitPage ==> self.current is Some)
        &&& (self.phase is AwaitPageDirs ==> self.current is Some && self.pending_page is Some)
        &&& (self.phase is AwaitStore ==> self.current is Some)
    }

    /// Which event the machine expects in its present phase.
    pub open spec fn expects_spec(self, event: Event) -> bool {
        match self.phase {
            Phase::Idle => event is Start,
            Phase::AwaitPage => event is PageFetched,
            Phase::AwaitPageDirs => event is DirsChecked,
            Phase::AwaitStore => event is PageStored,
            Phase::AwaitReportDirs => event is DirsChecked,
            Phase::AwaitReport => event is ReportStored,
            Phase::Done => false,
        }
    }

    /// Which event the machine expects in its present phase.
    pub fn expects(&self, event: &Event) -> (r: bool)
        ensures
            r == self.expects_spec(*event),
    {
        match self.phase {
            Phase::Idle => matches!(event, Event::Start),
            Phase::AwaitPage => matches!(event, Event::PageFetched(_)),
            Phase::AwaitPageDirs => matches!(event, Event::DirsChecked { .. }),
            Phase::AwaitStore => matches!(event, Event::PageStored { .. }),
            Phase::AwaitReportDirs => matches!(event, Event::DirsChecked { .. }),
            Phase::AwaitReport => matches!(event, Event::ReportStored { .. }),
            Phase::Done => false,
        }
    }

    /// Builds the machine for one run: the resolved path roles, the target
    /// queue, and the run clock, captured once; the report binds the fixed
    /// `reports` target to the reports root under the same clock.
    pub fn build(paths: ConfigPath, targets: Targets, today: Today) -> (r: Manager)
        ensures
            r.wf(),
            r.phase is Idle,
            r.count == 0,
            r.dept_root == paths.departments,
            r.base_url == paths.base_url,
            r.targets == targets,
            r.today == today,
            r.report.data@ =~= Seq::<String>::empty(),
            r.report.info.base == paths.reports,
            r.report.info.today == today,
            r.report.info.path.base@ == "reports"@,
            r.report.info.path.extension@ == Seq::<char>::empty(),
    {
        let ConfigPath { departments, targets: _, base_url, reports } = paths;
        let mut seg: Vec<String> = Vec::new();
        seg.push(String::from_str("reports"));
        let seg_slice = seg.as_slice();
        proof {
            assert(seg_slice.deep_view() =~= seg.deep_view());
            assert(seg.deep_view()[0] == "reports"@);
        }
        let report_target = Target::build(seg_slice);
        proof {
            assert(report_target.extension@ =~= Seq::<char>::empty());
        }
        let info = Department::build(report_target, today.duplicate(), reports);
        Manager {
            dept_root: departments,
            base_url,
            targets,
            today,
            report: Report::new(info),
            current: None,
            pending_page: None,
            pending_assets: Vec::new(),
            count: 0,
            phase: Phase::Idle,
        }
    }

    /// Moves on to the next target, or to the report when the queue is
    /// empty.
    fn advance(&mut self) -> (a: Action)
        requires
            old(self).wf(),
        ensures
            final(self).wf(),
            final(self).report == old(self).report,
            advances(*old(self), *final(self), a),
    {
        match self.targets.pop() {
            Some(t) => {
                let d = Department::build(t, self.today.duplicate(), self.dept_root.duplicate());
                let url = self.base_url.make_path(d.path.to_url());
                proof {
                    assert(url@ =~= path_str(self.base_url) + d.path.base@ + "/"@
                        + d.path.extension@);
                }
                self.count = self.count + 1;
                let delay = self.count == 3;
                if delay {
                    self.count = 0;
                }
                self.current = Some(d);
                self.phase = Phase::AwaitPage;
                Action::Fetch { url, delay }
            },
            None => {
                self.phase = Phase::AwaitReportDirs;
                let root = self.report.info.location();
                let date = self.report.info.storage_location_today();
                let time = self.report.info.storage_location_now();
                Action::CheckDirs { root, date, time }
            },
        }
    }

    /// Takes in a fetched page: scans it for hyperlink and image assets,
    /// resolves them against the origin, and asks for the directory levels
    /// to be checked.
    fn receive_page(&mut self, body: Vec<u8>) -> (a: Action)
        requires
            old(self).wf(),
            old(self).phase is AwaitPage,
        ensures
            final(self).wf(),
            scanned_step(*old(self), *final(self), body@, a),
    {
        let links = proper_scan_bytes(
            body.as_slice(),
            "id=\"content\"".as_bytes(),
            "class=\"layout-csun--footer\"".as_bytes(),
            "<a ".as_bytes(),
            "href".as_bytes(),
            "/sites/default/files/".as_bytes(),
            "\"".as_bytes(),
        );
        let images = proper_scan_bytes(
            body.as_slice(),
            "id=\"content\"".as_bytes(),
            "class=\"layout-csun--footer\"".as_bytes(),
            "<img ".as_bytes(),
            "src".as_bytes(),
            "/sites/default/files/".as_bytes(),
            "\"".as_bytes(),
        );
        let origin = crate::assets::strip_trailing_slash(self.base_url.get_path().as_str());
        let origin_b = origin.as_str().as_bytes();
        let mut assets: Vec<Vec<u8>> = Vec::new();
        crate::assets::resolve_all(&links, origin_b, &mut assets);
        crate::assets::resolve_all(&images, origin_b, &mut assets);
        proof {
            crate::assets::lemma_resolved_union(
                links.deep_view().to_set(),
                images.deep_view().to_set(),
                origin_b@,
            );
            assert(assets.deep_view().to_set() =~= resolved_set(
                link_matches(body@).union(image_matches(body@)),
                origin_of(path_str(self.base_url)),
            ));
        }
        let (root, date, time) = match &self.current {
            Some(d) => (d.location(), d.storage_location_today(), d.storage_location_now()),
            None => vstd::pervasive::unreached(),
        };
        self.pending_assets = assets;
        self.pending_page = Some(body);
        self.phase = Phase::AwaitPageDirs;
        Action::CheckDirs { root, date, time }
    }

    /// Hands out the storage work for the fetched page: the missing
    /// directory levels, the asset downloads, and the page write.
    fn emit_store(&mut self, root_exists: bool, date_exists: bool, time_exists: bool) -> (a:
        Action)
        requires
            old(self).wf(),
            old(self).phase is AwaitPageDirs,
        ensures
            final(self).wf(),
            store_handout(*old(self), *final(self), root_exists, date_exists, time_exists, a),
    {
        let page = match self.pending_page.take() {
            Some(p) => p,
            None => vstd::pervasive::unreached(),
        };
        let (creates, asset_dir, page_path) = match &self.current {
            Some(d) => {
                (
                    d.create_plan(root_exists, date_exists, time_exists),
                    d.storage_location_now().concat("files/"),
                    d.file_location(),
                )
            },
            None => vstd::pervasive::unreached(),
        };
        let mut assets: Vec<Vec<u8>> = Vec::new();
        core::mem::swap(&mut assets, &mut self.pending_assets);
        self.phase = Phase::AwaitStore;
        Action::StorePage { creates, asset_dir, assets, page_path, page }
    }

    /// Hands out the report write: the missing directory levels under the
    /// reports root, the report path, and the rendered text.
    fn emit_report_write(&mut self, root_exists: bool, date_exists: bool, time_exists: bool) -> (a:
        Action)
        requires
            old(self).wf(),
            old(self).phase is AwaitReportDirs,
        ensures
            final(self).wf(),
            report_handout(*old(self), *final(self), root_exists, date_exists, time_exists, a),
    {
        let creates = self.report.info.create_plan(root_exists, date_exists, time_exists);
        let path = self.report.info.file_location();
        let data = self.report.render();
        self.phase = Phase::AwaitReport;
        Action::WriteReport { creates, path, data }
    }

    /// Feeds one event into the machine and takes the next action.  The
    /// caller performs each action faithfully and answers with the matching
    /// event; the run clock never changes between the first event and the
    /// last.
    pub fn run(&mut self, event: Event) -> (a: Action)
        requires
            old(self).wf(),
            old(self).expects_spec(event),
        ensures
            final(self).wf(),
            frame(*old(self), *final(self)),
            event is Start ==> final(self).report == old(self).report && advances(
                *old(self),
                *final(self),
                a,
            ),
            event matches Event::PageFetched(None) ==> final(self).report == old(self).report
                && advances(*old(self), *final(self), a),
            event matches Event::PageFetched(Some(body)) ==> scanned_step(
                *old(self),
                *final(self),
                body@,
                a,
            ),
            event matches Event::DirsChecked { root_exists, date_exists, time_exists } ==> (
            if old(self).phase is AwaitPageDirs {
                store_handout(
                    *old(self),
                    *final(self),
                    root_exists,
                    date_exists,
                    time_exists,
                    a,
                )
            } else {
                report_handout(
                    *old(self),
                    *final(self),
                    root_exists,
                    date_exists,
                    time_exists,
                    a,
                )
            }),
            event matches Event::PageStored { created_ok, wrote_page } ==> stored_step(
                *old(self),
                *final(self),
                created_ok,
                wrote_page,
                a,
            ),
            event matches Event::ReportStored { created_ok, wrote_report } ==> finish_step(
                *old(self),
                *final(self),
                created_ok,
                wrote_report,
                a,
            ),
    {
        match event {
            Event::Start => self.advance(),
            Event::PageFetched(opt) => match opt {
                None => self.advance(),
                Some(body) => self.receive_page(body),
            },
            Event::DirsChecked { root_exists, date_exists, time_exists } => {
                match self.phase {
                    Phase::AwaitPageDirs => self.emit_store(root_exists, date_exists, time_exists),
                    _ => self.emit_report_write(root_exists, date_exists, time_exists),
                }
            },
            Event::PageStored { created_ok, wrote_page } => {
                if created_ok {
                    let outcome = match &self.current {
                        Some(d) => d.store_outcome(wrote_page),
                        None => vstd::pervasive::unreached(),
                    };
                    self.report.add(outcome);
                    proof {
                        assert(self.report.data@.drop_last() =~= old(self).report.data@);
                    }
                }
                let ghost mid = *self;
                let a = self.advance();
                proof {
                    assert(mid == pre_with_report(*old(self), *self));
                }
                a
            },
            Event::ReportStored { created_ok, wrote_report } => {
                self.phase = Phase::Done;
                if !created_ok {
                    Action::Failed {
                        message: String::from_str("could not create the report location"),
                    }
                } else {
                    let result = self.report.info.store_outcome(wrote_report);
                    Action::Finished { result }
                }
            },
        }
    }
}

/// One run, one clock: every storage level of a department in flight is
/// stamped with the machine's single run clock, so two targets of one run
/// share the same date and timestamp directory segments.
pub proof fn lemma_one_clock(m: Manager, d: Department)
    requires
        m.wf(),
        m.current == Some(d),
    ensures
        now_str(d) == location_str(d) + crate::clock::daily_str(m.today.date) + "/"@
            + crate::clock::daily_str(m.today.time) + "/"@,
{
    assert(now_str(d) =~= location_str(d) + crate::clock::daily_str(m.today.date) + "/"@
        + crate::clock::daily_str(m.today.time) + "/"@);
}

} // verus!
