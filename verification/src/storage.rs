//! Storage locations.
//!
//! A department binds one target to a storage root and the run clock.  Its
//! storage location is `root/base/extension…/date/timestamp/`, and the
//! page file sits under it as the target's store name.  Directories are
//! created lazily in root-to-timestamp order, and only where they are not
//! already known to exist.

use crate::clock::Today;
use crate::clock::daily_str;
use crate::config::Paths;
use crate::config::path_str;
use crate::target::Target;
use crate::target::dash_map;
use vstd::prelude::*;

verus! {

/// One target bound to its storage root and the run clock.
pub struct Department {
    pub base: Paths,
    pub path: Target,
    pub today: Today,
}

/// The extension as a directory infix: empty, or the extension path with a
/// closing `/`.
pub open spec fn ext_dir(e: Seq<char>) -> Seq<char> {
    if e.len() == 0 {
        Seq::empty()
    } else {
        e + "/"@
    }
}

/// The target's directory under the storage root:
/// `root/base/extension…/`.
pub open spec fn location_str(d: Department) -> Seq<char> {
    path_str(d.base) + d.path.base@ + "/"@ + ext_dir(d.path.extension@)
}

/// The date level of the storage location: `root/base/extension…/date/`.
pub open spec fn today_str(d: Department) -> Seq<char> {
    location_str(d) + daily_str(d.today.date) + "/"@
}

/// The timestamp level of the storage location:
/// `root/base/extension…/date/timestamp/`.
pub open spec fn now_str(d: Department) -> Seq<char> {
    today_str(d) + daily_str(d.today.time) + "/"@
}

/// The page file's full path: the storage location and the store name.
pub open spec fn file_str(d: Department) -> Seq<char> {
    now_str(d) + dash_map(d.path.extension@) + ".txt"@
}

/// The report line for a page whose write failed: the fixed fallback text
/// and the target's URL.
pub open spec fn nodata_str(d: Department) -> Seq<char> {
    "No data for "@ + d.path.base@ + "/"@ + d.path.extension@
}

/// The directories to create for a department, given which levels are
/// already known to exist: the missing ones among root, date and timestamp,
/// strictly in that order.
pub open spec fn create_plan_spec(
    d: Department,
    loc_exists: bool,
    date_exists: bool,
    time_exists: bool,
) -> Seq<Seq<char>> {
    (if loc_exists {
        Seq::<Seq<char>>::empty()
    } else {
        seq![location_str(d)]
    }) + (if date_exists {
        Seq::<Seq<char>>::empty()
    } else {
        seq![today_str(d)]
    }) + (if time_exists {
        Seq::<Seq<char>>::empty()
    } else {
        seq![now_str(d)]
    })
}

impl Department {
    /// Binds a target to the storage root and the run clock.
    pub fn build(path: Target, today: Today, base: Paths) -> (r: Department)
        ensures
            r.path == path,
            r.today == today,
            r.base == base,
    {
        Department { base, path, today }
    }

    /// The target's directory under the storage root.
    pub fn location(&self) -> (r: String)
        ensures
            r@ == location_str(*self),
    {
        let head = self.base.make_path(self.path.to_path());
        if self.path.extension.as_str().is_empty() {
            proof {
                assert(head@ =~= location_str(*self));
            }
            head
        } else {
            let r = head.concat(self.path.extension.as_str()).concat("/");
            proof {
                assert(r@ =~= location_str(*self));
            }
            r
        }
    }

    /// The date level of the storage location.
    pub fn storage_location_today(&self) -> (r: String)
        ensures
            r@ == today_str(*self),
    {
        let r = self.location().concat(self.today.date.get().as_str()).concat("/");
        proof {
            assert(r@ =~= today_str(*self));
        }
        r
    }

    /// The timestamp level of the storage location.
    pub fn storage_location_now(&self) -> (r: String)
        ensures
            r@ == now_str(*self),
    {
        let r = self.storage_location_today().concat(self.today.time.get().as_str()).concat("/");
        proof {
            assert(r@ =~= now_str(*self));
        }
        r
    }

    /// The page file's full path.
    pub fn file_location(&self) -> (r: String)
        ensures
            r@ == file_str(*self),
    {
        let r = self.storage_location_now().concat(self.path.to_store().as_str());
        proof {
            assert(r@ =~= file_str(*self));
        }
        r
    }

    /// The directories a caller must create before writing under this
    /// department, given which levels it already found to exist: exactly
    /// the missing levels, in root, date, timestamp order.
    pub fn create_plan(&self, loc_exists: bool, date_exists: bool, time_exists: bool) -> (r: Vec<
        String,
    >)
        ensures
            r.deep_view() == create_plan_spec(*self, loc_exists, date_exists, time_exists),
    {
        let mut r: Vec<String> = Vec::new();
        if !loc_exists {
            r.push(self.location());
        }
        if !date_exists {
            r.push(self.storage_location_today());
        }
        if !time_exists {
            r.push(self.storage_location_now());
        }
        proof {
            assert(r.deep_view() =~= create_plan_spec(
                *self,
                loc_exists,
                date_exists,
                time_exists,
            ));
        }
        r
    }

    /// The report line for a stored page: its path when the write
    /// succeeded, the no-data fallback for its URL when it failed.
    pub fn store_outcome(&self, wrote: bool) -> (r: String)
        ensures
            wrote ==> r@ == file_str(*self),
            !wrote ==> r@ == nodata_str(*self),
    {
        if wrote {
            self.file_location()
        } else {
            let r = String::from_str("No data for ").concat(self.path.to_url().as_str());
            proof {
                assert(r@ =~= nodata_str(*self));
            }
            r
        }
    }

    /// Gives the parts back, ending the binding.
    pub fn destroy(self) -> (r: (Paths, Target, Today))
        ensures
            r.0 == self.base,
            r.1 == self.path,
            r.2 == self.today,
    {
        (self.base, self.path, self.today)
    }
}

/// The levels of the storage location are three distinct paths: each deeper
/// level strictly extends the one above, so a level already known to exist
/// never reappears in the create plan.
pub proof fn lemma_no_recreate(
    d: Department,
    loc_exists: bool,
    date_exists: bool,
    time_exists: bool,
)
    ensures
        loc_exists ==> !create_plan_spec(d, loc_exists, date_exists, time_exists).contains(
            location_str(d),
        ),
        date_exists ==> !create_plan_spec(d, loc_exists, date_exists, time_exists).contains(
            today_str(d),
        ),
        time_exists ==> !create_plan_spec(d, loc_exists, date_exists, time_exists).contains(
            now_str(d),
        ),
{
    reveal_strlit("/");
    assert(location_str(d).len() < today_str(d).len());
    assert(today_str(d).len() < now_str(d).len());
    let plan = create_plan_spec(d, loc_exists, date_exists, time_exists);
    if loc_exists {
        assert forall|k: int| 0 <= k < plan.len() implies plan[k] != location_str(d) by {
            assert(plan[k] == today_str(d) || plan[k] == now_str(d));
        }
        assert(!plan.contains(location_str(d)));
    }
    if date_exists {
        assert forall|k: int| 0 <= k < plan.len() implies plan[k] != today_str(d) by {
            assert(plan[k] == location_str(d) || plan[k] == now_str(d));
        }
        assert(!plan.contains(today_str(d)));
    }
    if time_exists {
        assert forall|k: int| 0 <= k < plan.len() implies plan[k] != now_str(d) by {
            assert(plan[k] == location_str(d) || plan[k] == today_str(d));
        }
        assert(!plan.contains(now_str(d)));
    }
}

} // verus!
