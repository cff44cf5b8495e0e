//! Typed representations of the traffic API's responses.
//!
//! Views and clones arrive as timestamped counters, per hour or per week,
//! under a total that the server has already summed.  Referring sites and
//! popular content arrive without any timestamp: each entry is a live sum
//! over the trailing fourteen days.

use vstd::prelude::*;
use crate::reconcile::{Reading, SeriesPoint};

verus! {


/// Clones counted in one UTC hour.
#[derive(Debug, Clone, PartialEq, Eq, Default)]
pub struct ModelRepoClonesHourly {
    pub count: u64,
    pub timestamp: String,
    pub uniques: u64,
}

/// The hourly clone counters of the trailing fourteen days, under the
/// server's own sum of them.
#[derive(Debug, Clone, PartialEq, Eq, Default)]
pub struct ModelRepoClonesDaily {
    pub clones: Vec<ModelRepoClonesHourly>,
    pub count: u64,
    pub uniques: u64,
}

/// Clones counted in one week that starts on a Monday, UTC.
#[derive(Debug, Clone, PartialEq, Eq, Default)]
pub struct ModelRepoClonesWeekly {
    pub count: u64,
    pub timestamp: String,
    pub uniques: u64,
}

/// The weekly clone counters that the server reports: at most three, the last
/// of which is still accumulating.
#[derive(Debug, Clone, PartialEq, Eq, Default)]
pub struct ModelRepoClonesBiWeekly {
    pub clones: Vec<ModelRepoClonesWeekly>,
    pub count: u64,
    pub uniques: u64,
}

/// Visits that one referring site sent within the trailing fourteen days.
#[derive(Debug, Clone, PartialEq, Eq, Default)]
pub struct ModelReferrer {
    pub count: u64,
    pub referrer: String,
    pub uniques: u64,
}

/// What the referrers endpoint answers.
pub type ModelReferrerals = Vec<ModelReferrer>;

/// Visits to one content path within the trailing fourteen days.
#[derive(Debug, Clone, PartialEq, Eq, Default)]
pub struct ModelContentTraffic {
    pub count: u64,
    pub path: String,
    pub title: String,
    pub uniques: u64,
}

/// What the popular-paths endpoint answers.
pub type ModelContentTrafficBiWeekly = Vec<ModelContentTraffic>;

/// Page views counted in one UTC hour.
#[derive(Debug, Clone, PartialEq, Eq, Default)]
pub struct ModelRepoViewsHourly {
    pub count: u64,
    pub timestamp: String,
    pub uniques: u64,
}

/// The hourly view counters of the trailing fourteen days, under the server's
/// own sum of them.
#[derive(Debug, Clone, PartialEq, Eq, Default)]
pub struct ModelRepoViewsDaily {
    pub count: u64,
    pub uniques: u64,
    pub views: Vec<ModelRepoViewsHourly>,
}

/// Page views counted in one week that starts on a Monday, UTC.
#[derive(Debug, Clone, PartialEq, Eq, Default)]
pub struct ModelRepoViewsWeekly {
    pub count: u64,
    pub timestamp: String,
    pub uniques: u64,
}

/// The weekly view counters that the server reports: at most three, the last
/// of which is still accumulating.
#[derive(Debug, Clone, PartialEq, Eq, Default)]
pub struct ModelRepoViewsBiWeekly {
    pub count: u64,
    pub uniques: u64,
    pub views: Vec<ModelRepoViewsWeekly>,
}

/// What the stargazers endpoint answers.
pub type ModelRepoStargazers = Vec<ModelRepoStargazer>;

/// An account that starred the repository.
#[derive(Debug, Clone, PartialEq, Eq, Default)]
pub struct ModelRepoStargazer {
    pub avatar_url: String,
    pub events_url: String,
    pub followers_url: String,
    pub following_url: String,
    pub gists_url: String,
    pub gravatar_id: String,
    pub html_url: String,
    pub id: u64,
    pub login: String,
    pub node_id: String,
    pub organizations_url: String,
    pub received_events_url: String,
    pub repos_url: String,
    pub request_watchers: String,
    pub account_type: String,
    pub site_admin: bool,
    pub starred_url: String,
    pub url: String,
}

/// What the watchers endpoint answers.
pub type ModelRepoWatchers = Vec<ModelRepoWatcher>;

/// An account that watches the repository.
#[derive(Debug, Clone, PartialEq, Eq, Default)]
pub struct ModelRepoWatcher {
    pub avatar_url: String,
    pub events_url: String,
    pub followers_url: String,
    pub following_url: String,
    pub gists_url: String,
    pub gravatar_id: String,
    pub html_url: String,
    pub id: u64,
    pub login: String,
    pub node_id: String,
    pub organizations_url: String,
    pub received_events_url: String,
    pub repos_url: String,
    pub account_type: String,
    pub site_admin: bool,
    pub starred_url: String,
    pub subscriptions_url: String,
    pub url: String,
}

/// What the forks endpoint answers.
pub type ModelRepoForks = Vec<ModelRepoFork>;

/// A fork of the repository.
#[derive(Debug, Clone, PartialEq, Eq, Default)]
pub struct ModelRepoFork {
    pub allow_forking: bool,
    pub archived: bool,
    pub archive_url: String,
    pub assignees_url: String,
    pub blobs_url: String,
    pub branches_url: String,
    pub clone_url: String,
    pub collaborators_url: String,
    pub comments_url: String,
    pub commits_url: String,
    pub compare_url: String,
    pub contents_url: String,
    pub contributors_url: String,
    pub created_at: String,
    pub default_branch: String,
    pub deployments_url: String,
    pub description: String,
    pub disabled: bool,
    pub downloads_url: String,
    pub events_url: String,
    pub fork: bool,
    pub forks_count: u64,
    pub forks: u64,
    pub forks_url: String,
    pub full_name: String,
    pub git_commits_url: String,
    pub git_refs_url: String,
    pub git_tags_url: String,
    pub git_url: String,
    pub has_discussions: bool,
    pub has_downloads: bool,
    pub has_issues: bool,
    pub has_pages: bool,
    pub has_projects: bool,
    pub has_wiki: bool,
    pub homepage: String,
    pub hooks_url: String,
    pub html_url: String,
    pub id: u64,
    pub issue_comment_url: String,
    pub issue_events_url: String,
    pub issues_url: String,
    pub is_template: bool,
    pub keys_url: String,
    pub labels_url: String,
    pub language: Option<String>,
    pub languages_url: String,
    pub license: ModelLicense,
    pub merges_url: String,
    pub milestones_url: String,
    pub mirror_url: Option<String>,
    pub name: String,
    pub node_id: String,
    pub notifications_url: String,
    pub open_issues_count: u64,
    pub open_issues: u64,
    pub owner: OwnerModel,
    pub permissions: ModelPermissions,
    pub private: bool,
    pub pulls_url: String,
    pub pushed_at: String,
    pub releases_url: String,
    pub size: u64,
    pub ssh_url: String,
    pub stargazers_count: u64,
    pub stargazers_url: String,
    pub statuses_url: String,
    pub subscribers_url: String,
    pub subscription_url: String,
    pub svn_url: String,
    pub tags_url: String,
    pub teams_url: String,
    pub topics: Vec<String>,
    pub trees_url: String,
    pub updated_at: String,
    pub url: String,
    pub visibility: String,
    pub watchers_count: u64,
    pub watchers: u64,
    pub web_commit_signoff_required: bool,
}

/// The license of a repository.
#[derive(Debug, Clone, PartialEq, Eq, Default)]
pub struct ModelLicense {
    pub key: String,
    pub name: String,
    pub node_id: String,
    pub spdx_id: String,
    pub url: String,
}

/// What the authenticated account may do with a repository.
#[derive(Debug, Clone, PartialEq, Eq, Default)]
pub struct ModelPermissions {
    pub admin: bool,
    pub maintain: bool,
    pub pull: bool,
    pub push: bool,
    pub triage: bool,
}

/// The account that owns a repository.
#[derive(Debug, Clone, PartialEq, Eq, Default)]
pub struct OwnerModel {
    pub avatar_url: String,
    pub events_url: String,
    pub followers_url: String,
    pub following_url: String,
    pub gists_url: String,
    pub gravatar_id: String,
    pub html_url: String,
    pub id: u64,
    pub login: String,
    pub node_id: String,
    pub organizations_url: String,
    pub received_events_url: String,
    pub repos_url: String,
    pub account_type: String,
    pub site_admin: bool,
    pub starred_url: String,
    pub subscriptions_url: String,
    pub url: String,
}


impl SeriesPoint for ModelRepoClonesHourly {
    open spec fn reading(&self) -> Reading {
        Reading { key: self.timestamp@, count: self.count, uniques: self.uniques }
    }

    fn key(&self) -> (key: &String) {
        &self.timestamp
    }

    fn count(&self) -> (count: u64) {
        self.count
    }

    fn uniques(&self) -> (uniques: u64) {
        self.uniques
    }
}


impl SeriesPoint for ModelRepoClonesWeekly {
    open spec fn reading(&self) -> Reading {
        Reading { key: self.timestamp@, count: self.count, uniques: self.uniques }
    }

    fn key(&self) -> (key: &String) {
        &self.timestamp
    }

    fn count(&self) -> (count: u64) {
        self.count
    }

    fn uniques(&self) -> (uniques: u64) {
        self.uniques
    }
}


impl SeriesPoint for ModelRepoViewsHourly {
    open spec fn reading(&self) -> Reading {
        Reading { key: self.timestamp@, count: self.count, uniques: self.uniques }
    }

    fn key(&self) -> (key: &String) {
        &self.timestamp
    }

    fn count(&self) -> (count: u64) {
        self.count
    }

    fn uniques(&self) -> (uniques: u64) {
        self.uniques
    }
}


impl SeriesPoint for ModelRepoViewsWeekly {
    open spec fn reading(&self) -> Reading {
        Reading { key: self.timestamp@, count: self.count, uniques: self.uniques }
    }

    fn key(&self) -> (key: &String) {
        &self.timestamp
    }

    fn count(&self) -> (count: u64) {
        self.count
    }

    fn uniques(&self) -> (uniques: u64) {
        self.uniques
    }
}


impl SeriesPoint for ModelReferrer {
    open spec fn reading(&self) -> Reading {
        Reading { key: self.referrer@, count: self.count, uniques: self.uniques }
    }

    fn key(&self) -> (key: &String) {
        &self.referrer
    }

    fn count(&self) -> (count: u64) {
        self.count
    }

    fn uniques(&self) -> (uniques: u64) {
        self.uniques
    }
}


impl SeriesPoint for ModelContentTraffic {
    open spec fn reading(&self) -> Reading {
        Reading { key: self.path@, count: self.count, uniques: self.uniques }
    }

    fn key(&self) -> (key: &String) {
        &self.path
    }

    fn count(&self) -> (count: u64) {
        self.count
    }

    fn uniques(&self) -> (uniques: u64) {
        self.uniques
    }
}


} // verus!
