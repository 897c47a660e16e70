use vstd::prelude::*;
use crate::errors::SupervisorError;
use crate::version::{components_spec, newer_spec, is_newer_version};
use crate::text::{trim_spec, trim_str, str_eq};
use crate::json::{JsonTree, json_tree_of, json_view, json_parse, json_get, json_as_str,
    json_as_array};

verus! {

/// One downloadable asset of a release.
#[derive(Clone, Debug, PartialEq, Eq)]
pub struct ReleaseAsset {
    pub name: String,
    pub url: String,
}

/// A release manifest: its tag and its assets.
#[derive(Clone, Debug, PartialEq, Eq)]
pub struct ReleaseInfo {
    pub tag_name: String,
    pub assets: Vec<ReleaseAsset>,
}

/// The outcome of an update check. `version` reports the latest tag as
/// published; `download_url` is empty unless an update is available.
#[derive(Clone, Debug, PartialEq, Eq)]
pub struct UpdateInfo {
    pub available: bool,
    pub version: String,
    pub download_url: String,
}

/// The (name, URL) pairs of a release's assets, in order.
pub open spec fn asset_pairs(assets: Seq<ReleaseAsset>) -> Seq<(Seq<char>, Seq<char>)> {
    assets.map_values(|a: ReleaseAsset| (a.name@, a.url@))
}

/// The URL of the first asset pair carrying this exact name, if any.
pub open spec fn find_asset_spec(assets: Seq<(Seq<char>, Seq<char>)>, name: Seq<char>) -> Option<
    Seq<char>,
>
    decreases assets.len(),
{
    if assets.len() == 0 {
        None
    } else if assets[0].0 == name {
        Some(assets[0].1)
    } else {
        find_asset_spec(assets.skip(1), name)
    }
}

/// What one asset entry of the manifest declares: its "name" and
/// "browser_download_url", both required strings.
pub open spec fn asset_fields(t: JsonTree) -> Option<(Seq<char>, Seq<char>)> {
    match t {
        JsonTree::Obj { entries } => {
            if entries.contains_key("name"@) && entries.contains_key("browser_download_url"@) {
                match (entries["name"@], entries["browser_download_url"@]) {
                    (JsonTree::Str { s: n }, JsonTree::Str { s: u }) => Some((n, u)),
                    _ => None,
                }
            } else {
                None
            }
        },
        _ => None,
    }
}

/// The asset pairs of a manifest's asset list; `None` as soon as one entry
/// is not well-formed.
pub open spec fn assets_fields(ts: Seq<JsonTree>) -> Option<Seq<(Seq<char>, Seq<char>)>>
    decreases ts.len(),
{
    if ts.len() == 0 {
        Some(Seq::empty())
    } else {
        match (asset_fields(ts[0]), assets_fields(ts.skip(1))) {
            (Some(h), Some(rest)) => Some(seq![h] + rest),
            _ => None,
        }
    }
}

/// What a decoded manifest declares: a string "tag_name" and an "assets"
/// array of well-formed asset entries.
pub open spec fn release_fields(t: JsonTree) -> Option<(Seq<char>, Seq<(Seq<char>, Seq<char>)>)> {
    match t {
        JsonTree::Obj { entries } => {
            if entries.contains_key("tag_name"@) && entries.contains_key("assets"@) {
                match (entries["tag_name"@], entries["assets"@]) {
                    (JsonTree::Str { s: tag }, JsonTree::Arr { elems }) => {
                        match assets_fields(elems) {
                            Some(a) => Some((tag, a)),
                            None => None,
                        }
                    },
                    _ => None,
                }
            } else {
                None
            }
        },
        _ => None,
    }
}

/// What a manifest text denotes: the release's tag and asset pairs, or
/// `None` when the text is malformed or not of the manifest shape.
pub open spec fn release_of(s: Seq<char>) -> Option<(Seq<char>, Seq<(Seq<char>, Seq<char>)>)> {
    match json_tree_of(s) {
        Some(t) => release_fields(t),
        None => None,
    }
}

/// Finds the first asset with this exact name.
pub fn find_asset(assets: &Vec<ReleaseAsset>, name: &str) -> (r: Option<String>)
    ensures
        (r matches Some(u) ==> find_asset_spec(asset_pairs(assets@), name@) == Some(u@)),
        r is None ==> find_asset_spec(asset_pairs(assets@), name@) is None,
{
    let n: usize = assets.len();
    let mut i: usize = 0;
    proof {
        assert(asset_pairs(assets@).skip(0) =~= asset_pairs(assets@));
    }
    while i < n
        invariant
            0 <= i <= n,
            n == assets@.len(),
            find_asset_spec(asset_pairs(assets@), name@) == find_asset_spec(
                asset_pairs(assets@).skip(i as int),
                name@,
            ),
        decreases n - i,
    {
        proof {
            assert(asset_pairs(assets@)[i as int] == (assets@[i as int].name@, assets@[
                i as int
            ].url@));
            assert(asset_pairs(assets@).skip(i as int)[0] == asset_pairs(assets@)[i as int]);
            assert(asset_pairs(assets@).skip(i as int).skip(1) =~= asset_pairs(assets@).skip(
                i + 1,
            ));
        }
        if str_eq(assets[i].name.as_str(), name) {
            return Some(assets[i].url.clone());
        }
        i = i + 1;
    }
    None
}

/// Evaluates a release against the running version: an update is available
/// exactly when the release tag names a strictly newer version. When it is,
/// the release must carry an asset named "MyTerm.zip", whose URL is
/// reported; its absence is a hard error, not a silent "not available".
pub fn evaluate_update(release: &ReleaseInfo, current_version: &str) -> (r: Result<
    UpdateInfo,
    SupervisorError,
>)
    ensures
        !newer_spec(components_spec(release.tag_name@), components_spec(current_version@)) ==> (
        r matches Ok(u) && u.available == false && u.version@ == release.tag_name@
            && u.download_url@ == Seq::<char>::empty()),
        newer_spec(components_spec(release.tag_name@), components_spec(current_version@))
            && find_asset_spec(asset_pairs(release.assets@), "MyTerm.zip"@) is Some ==> (r matches
        Ok(u) && u.available == true && u.version@ == release.tag_name@ && Some(u.download_url@)
            == find_asset_spec(asset_pairs(release.assets@), "MyTerm.zip"@)),
        newer_spec(components_spec(release.tag_name@), components_spec(current_version@))
            && find_asset_spec(asset_pairs(release.assets@), "MyTerm.zip"@) is None ==> r == Err::<
            UpdateInfo,
            SupervisorError,
        >(SupervisorError::UpdateAssetMissing),
{
    let available = is_newer_version(release.tag_name.as_str(), current_version);
    if !available {
        return Ok(
            UpdateInfo {
                available: false,
                version: release.tag_name.clone(),
                download_url: String::new(),
            },
        );
    }
    match find_asset(&release.assets, "MyTerm.zip") {
        Some(url) => Ok(
            UpdateInfo { available: true, version: release.tag_name.clone(), download_url: url },
        ),
        None => Err(SupervisorError::UpdateAssetMissing),
    }
}

/// Reads a release manifest out of its JSON form: succeeds exactly when the
/// text denotes a manifest (a string "tag_name" and an "assets" array whose
/// entries carry a string "name" and "browser_download_url"), and then
/// returns exactly the denoted tag and assets. Anything else counts as a
/// failure to obtain the manifest.
pub fn parse_release(manifest_json: &str) -> (r: Result<ReleaseInfo, SupervisorError>)
    ensures
        (r matches Ok(rel)) <==> release_of(manifest_json@) is Some,
        (r matches Ok(rel) ==> release_of(manifest_json@) == Some(
            (rel.tag_name@, asset_pairs(rel.assets@)),
        )),
        r is Err ==> r == Err::<ReleaseInfo, SupervisorError>(SupervisorError::DownloadFailed),
{
    let doc = match json_parse(manifest_json) {
        Some(d) => d,
        None => {
            return Err(SupervisorError::DownloadFailed);
        },
    };
    let tag_value = match json_get(&doc, "tag_name") {
        Some(v) => v,
        None => {
            return Err(SupervisorError::DownloadFailed);
        },
    };
    let tag_name: String = match json_as_str(tag_value) {
        Some(s) => s.to_owned(),
        None => {
            return Err(SupervisorError::DownloadFailed);
        },
    };
    let assets_value = match json_get(&doc, "assets") {
        Some(v) => v,
        None => {
            return Err(SupervisorError::DownloadFailed);
        },
    };
    let items = match json_as_array(assets_value) {
        Some(a) => a,
        None => {
            return Err(SupervisorError::DownloadFailed);
        },
    };
    let ghost elems = (match json_view(*assets_value) {
        JsonTree::Arr { elems } => elems,
        _ => Seq::<JsonTree>::empty(),
    });
    proof {
        assert(release_of(manifest_json@) == (match assets_fields(elems) {
            Some(a) => Some((tag_name@, a)),
            None => None::<(Seq<char>, Seq<(Seq<char>, Seq<char>)>)>,
        }));
    }
    let n: usize = items.len();
    let mut assets: Vec<ReleaseAsset> = Vec::new();
    let mut i: usize = 0;
    proof {
        assert(elems.skip(0) =~= elems);
        assert(asset_pairs(assets@) =~= Seq::<(Seq<char>, Seq<char>)>::empty());
        if assets_fields(elems) is Some {
            assert(asset_pairs(assets@) + assets_fields(elems).unwrap() =~= assets_fields(
                elems,
            ).unwrap());
        }
    }
    while i < n
        invariant
            0 <= i <= n,
            n == items@.len(),
            n == elems.len(),
            forall|j: int| 0 <= j < n ==> json_view(#[trigger] items@[j]) == elems[j],
            release_of(manifest_json@) == (match assets_fields(elems) {
                Some(a) => Some((tag_name@, a)),
                None => None::<(Seq<char>, Seq<(Seq<char>, Seq<char>)>)>,
            }),
            (match assets_fields(elems.skip(i as int)) {
                Some(rest) => assets_fields(elems) == Some(asset_pairs(assets@) + rest),
                None => assets_fields(elems) is None,
            }),
        decreases n - i,
    {
        proof {
            assert(elems.skip(i as int)[0] == elems[i as int]);
            assert(elems.skip(i as int).skip(1) =~= elems.skip(i + 1));
        }
        let item = &items[i];
        let name_value = match json_get(item, "name") {
            Some(v) => v,
            None => {
                proof {
                    assert(asset_fields(elems[i as int]) is None);
                }
                return Err(SupervisorError::DownloadFailed);
            },
        };
        let name: String = match json_as_str(name_value) {
            Some(s) => s.to_owned(),
            None => {
                proof {
                    assert(asset_fields(elems[i as int]) is None);
                }
                return Err(SupervisorError::DownloadFailed);
            },
        };
        let url_value = match json_get(item, "browser_download_url") {
            Some(v) => v,
            None => {
                proof {
                    assert(asset_fields(elems[i as int]) is None);
                }
                return Err(SupervisorError::DownloadFailed);
            },
        };
        let url: String = match json_as_str(url_value) {
            Some(s) => s.to_owned(),
            None => {
                proof {
                    assert(asset_fields(elems[i as int]) is None);
                }
                return Err(SupervisorError::DownloadFailed);
            },
        };
        let ghost assets_pre = assets@;
        proof {
            assert(asset_fields(elems[i as int]) == Some((name@, url@)));
        }
        assets.push(ReleaseAsset { name, url });
        proof {
            assert(asset_pairs(assets@) =~= asset_pairs(assets_pre) + seq![
                (assets@.last().name@, assets@.last().url@),
            ]);
            match assets_fields(elems.skip(i + 1)) {
                Some(rest2) => {
                    assert(assets_fields(elems.skip(i as int)) == Some(
                        seq![(assets@.last().name@, assets@.last().url@)] + rest2,
                    ));
                    assert(asset_pairs(assets_pre) + (seq![
                        (assets@.last().name@, assets@.last().url@),
                    ] + rest2) =~= asset_pairs(assets@) + rest2);
                },
                None => {
                    assert(assets_fields(elems.skip(i as int)) is None);
                },
            }
        }
        i = i + 1;
    }
    proof {
        assert(elems.skip(n as int) =~= Seq::<JsonTree>::empty());
        assert(assets_fields(elems.skip(n as int)) == Some(Seq::<(Seq<char>, Seq<char>)>::empty()));
        assert(asset_pairs(assets@) + Seq::<(Seq<char>, Seq<char>)>::empty() =~= asset_pairs(
            assets@,
        ));
    }
    Ok(ReleaseInfo { tag_name, assets })
}

/// The full update check on a fetched manifest: reads the manifest and
/// evaluates it against the running version, with the availability and
/// asset rules of [`evaluate_update`] composed through the manifest's
/// denotation; a text that denotes no manifest is `DownloadFailed`.
pub fn check_for_update(manifest_json: &str, current_version: &str) -> (r: Result<
    UpdateInfo,
    SupervisorError,
>)
    ensures
        release_of(manifest_json@) is None ==> r == Err::<UpdateInfo, SupervisorError>(
            SupervisorError::DownloadFailed,
        ),
        release_of(manifest_json@) matches Some(rel) ==> {
            &&& !newer_spec(components_spec(rel.0), components_spec(current_version@)) ==> (
            r matches Ok(u) && u.available == false && u.version@ == rel.0 && u.download_url@
                == Seq::<char>::empty())
            &&& newer_spec(components_spec(rel.0), components_spec(current_version@))
                && find_asset_spec(rel.1, "MyTerm.zip"@) is Some ==> (r matches Ok(u) && u.available
                == true && u.version@ == rel.0 && Some(u.download_url@) == find_asset_spec(
                rel.1,
                "MyTerm.zip"@,
            ))
            &&& newer_spec(components_spec(rel.0), components_spec(current_version@))
                && find_asset_spec(rel.1, "MyTerm.zip"@) is None ==> r == Err::<
                UpdateInfo,
                SupervisorError,
            >(SupervisorError::UpdateAssetMissing)
        },
        r is Err ==> (r == Err::<UpdateInfo, SupervisorError>(SupervisorError::DownloadFailed) || r
            == Err::<UpdateInfo, SupervisorError>(SupervisorError::UpdateAssetMissing)),
{
    match parse_release(manifest_json) {
        Ok(release) => evaluate_update(&release, current_version),
        Err(e) => Err(e),
    }
}

/// One outside step of the install pipeline, performed by the embedding
/// application.
#[derive(Clone, Copy, Debug, PartialEq, Eq, Structural)]
pub enum InstallStep {
    /// Create the fresh temp directory and the extraction directory in it.
    CreateWorkspace,
    /// Download the asset into the workspace.
    DownloadArchive,
    /// Unpack the downloaded archive into the extraction directory.
    ExtractArchive,
    /// Locate the first bundle directory inside the extraction tree.
    LocateBundle,
    /// Clear extended attributes on the extracted bundle (best effort).
    ClearQuarantine,
    /// Remove any stale backup bundle (best effort).
    RemoveStaleBackup,
    /// Rename the live bundle to its backup name.
    MoveBundleAside,
    /// Copy the extracted bundle into the live bundle's original path.
    CopyBundleIn,
    /// Clear extended attributes on the new live bundle (best effort).
    ClearQuarantineLive,
}

/// Where the install pipeline stands: which step is pending, or how it
/// ended.
#[derive(Clone, Copy, Debug, PartialEq, Eq, Structural)]
pub enum InstallPhase {
    AtCreateWorkspace,
    AtDownload,
    AtExtract,
    AtLocate,
    AtClearQuarantine,
    AtRemoveStaleBackup,
    AtMoveAside,
    AtCopyIn,
    AtClearQuarantineLive,
    /// The new bundle is in place.
    Done,
    /// The pipeline aborted; no further step is performed.
    Failed { error: SupervisorError },
}

/// The step pending in a phase; `None` once the pipeline ended.
pub open spec fn install_pending_spec(phase: InstallPhase) -> Option<InstallStep> {
    match phase {
        InstallPhase::AtCreateWorkspace => Some(InstallStep::CreateWorkspace),
        InstallPhase::AtDownload => Some(InstallStep::DownloadArchive),
        InstallPhase::AtExtract => Some(InstallStep::ExtractArchive),
        InstallPhase::AtLocate => Some(InstallStep::LocateBundle),
        InstallPhase::AtClearQuarantine => Some(InstallStep::ClearQuarantine),
        InstallPhase::AtRemoveStaleBackup => Some(InstallStep::RemoveStaleBackup),
        InstallPhase::AtMoveAside => Some(InstallStep::MoveBundleAside),
        InstallPhase::AtCopyIn => Some(InstallStep::CopyBundleIn),
        InstallPhase::AtClearQuarantineLive => Some(InstallStep::ClearQuarantineLive),
        InstallPhase::Done => None,
        InstallPhase::Failed { .. } => None,
    }
}

/// The pipeline's transition: a failed required step aborts the rest with
/// that step's error; the extended-attribute and stale-backup steps are
/// best-effort and never abort; a finished pipeline stays finished.
pub open spec fn install_advance_spec(phase: InstallPhase, step_ok: bool) -> InstallPhase {
    match phase {
        InstallPhase::AtCreateWorkspace => {
            if step_ok {
                InstallPhase::AtDownload
            } else {
                InstallPhase::Failed { error: SupervisorError::DownloadFailed }
            }
        },
        InstallPhase::AtDownload => {
            if step_ok {
                InstallPhase::AtExtract
            } else {
                InstallPhase::Failed { error: SupervisorError::DownloadFailed }
            }
        },
        InstallPhase::AtExtract => {
            if step_ok {
                InstallPhase::AtLocate
            } else {
                InstallPhase::Failed { error: SupervisorError::ExtractFailed }
            }
        },
        InstallPhase::AtLocate => {
            if step_ok {
                InstallPhase::AtClearQuarantine
            } else {
                InstallPhase::Failed { error: SupervisorError::BundleNotFound }
            }
        },
        InstallPhase::AtClearQuarantine => InstallPhase::AtRemoveStaleBackup,
        InstallPhase::AtRemoveStaleBackup => InstallPhase::AtMoveAside,
        InstallPhase::AtMoveAside => {
            if step_ok {
                InstallPhase::AtCopyIn
            } else {
                InstallPhase::Failed { error: SupervisorError::SwapFailed }
            }
        },
        InstallPhase::AtCopyIn => {
            if step_ok {
                InstallPhase::AtClearQuarantineLive
            } else {
                InstallPhase::Failed { error: SupervisorError::SwapFailed }
            }
        },
        InstallPhase::AtClearQuarantineLive => InstallPhase::Done,
        InstallPhase::Done => InstallPhase::Done,
        InstallPhase::Failed { error } => InstallPhase::Failed { error },
    }
}

/// Admission for the install pipeline: a blank download URL is rejected,
/// anything else starts the pipeline at its first step.
pub fn install_begin(download_url: &str) -> (r: Result<InstallPhase, SupervisorError>)
    ensures
        trim_spec(download_url@).len() == 0 ==> r == Err::<InstallPhase, SupervisorError>(
            SupervisorError::DownloadFailed,
        ),
        trim_spec(download_url@).len() > 0 ==> r == Ok::<InstallPhase, SupervisorError>(
            InstallPhase::AtCreateWorkspace,
        ),
{
    let trimmed = trim_str(download_url);
    if trimmed.unicode_len() == 0 {
        Err(SupervisorError::DownloadFailed)
    } else {
        Ok(InstallPhase::AtCreateWorkspace)
    }
}

/// The step pending in a phase, `None` once the pipeline ended.
pub fn install_pending_step(phase: InstallPhase) -> (r: Option<InstallStep>)
    ensures
        r == install_pending_spec(phase),
{
    match phase {
        InstallPhase::AtCreateWorkspace => Some(InstallStep::CreateWorkspace),
        InstallPhase::AtDownload => Some(InstallStep::DownloadArchive),
        InstallPhase::AtExtract => Some(InstallStep::ExtractArchive),
        InstallPhase::AtLocate => Some(InstallStep::LocateBundle),
        InstallPhase::AtClearQuarantine => Some(InstallStep::ClearQuarantine),
        InstallPhase::AtRemoveStaleBackup => Some(InstallStep::RemoveStaleBackup),
        InstallPhase::AtMoveAside => Some(InstallStep::MoveBundleAside),
        InstallPhase::AtCopyIn => Some(InstallStep::CopyBundleIn),
        InstallPhase::AtClearQuarantineLive => Some(InstallStep::ClearQuarantineLive),
        InstallPhase::Done => None,
        InstallPhase::Failed { .. } => None,
    }
}

/// Advances the pipeline after the pending step reported its outcome.
pub fn install_advance(phase: InstallPhase, step_ok: bool) -> (r: InstallPhase)
    ensures
        r == install_advance_spec(phase, step_ok),
{
    match phase {
        InstallPhase::AtCreateWorkspace => {
            if step_ok {
                InstallPhase::AtDownload
            } else {
                InstallPhase::Failed { error: SupervisorError::DownloadFailed }
            }
        },
        InstallPhase::AtDownload => {
            if step_ok {
                InstallPhase::AtExtract
            } else {
                InstallPhase::Failed { error: SupervisorError::DownloadFailed }
            }
        },
        InstallPhase::AtExtract => {
            if step_ok {
                InstallPhase::AtLocate
            } else {
                InstallPhase::Failed { error: SupervisorError::ExtractFailed }
            }
        },
        InstallPhase::AtLocate => {
            if step_ok {
                InstallPhase::AtClearQuarantine
            } else {
                InstallPhase::Failed { error: SupervisorError::BundleNotFound }
            }
        },
        InstallPhase::AtClearQuarantine => InstallPhase::AtRemoveStaleBackup,
        InstallPhase::AtRemoveStaleBackup => InstallPhase::AtMoveAside,
        InstallPhase::AtMoveAside => {
            if step_ok {
                InstallPhase::AtCopyIn
            } else {
                InstallPhase::Failed { error: SupervisorError::SwapFailed }
            }
        },
        InstallPhase::AtCopyIn => {
            if step_ok {
                InstallPhase::AtClearQuarantineLive
            } else {
                InstallPhase::Failed { error: SupervisorError::SwapFailed }
            }
        },
        InstallPhase::AtClearQuarantineLive => InstallPhase::Done,
        InstallPhase::Done => InstallPhase::Done,
        InstallPhase::Failed { error } => InstallPhase::Failed { error },
    }
}

/// An install failure is terminal: a failed pipeline has no pending step
/// and never advances anywhere else, so the remaining steps are aborted
/// immediately; a completed pipeline likewise stays completed.
pub proof fn lemma_install_failure_is_terminal(error: SupervisorError, step_ok: bool)
    ensures
        install_pending_spec(InstallPhase::Failed { error }) is None,
        install_pending_spec(InstallPhase::Done) is None,
        install_advance_spec(InstallPhase::Failed { error }, step_ok) == (InstallPhase::Failed {
            error,
        }),
        install_advance_spec(InstallPhase::Done, step_ok) == InstallPhase::Done,
{
}

/// The happy path of the pipeline visits its steps in order: workspace,
/// download, extraction, bundle location, quarantine clearing, stale-backup
/// removal, the rename of the live bundle aside, the copy of the new bundle
/// into place, and the final quarantine clearing, and then it is done.
pub proof fn lemma_install_happy_path()
    ensures
        install_advance_spec(InstallPhase::AtCreateWorkspace, true) == InstallPhase::AtDownload,
        install_advance_spec(InstallPhase::AtDownload, true) == InstallPhase::AtExtract,
        install_advance_spec(InstallPhase::AtExtract, true) == InstallPhase::AtLocate,
        install_advance_spec(InstallPhase::AtLocate, true) == InstallPhase::AtClearQuarantine,
        install_advance_spec(InstallPhase::AtClearQuarantine, true)
            == InstallPhase::AtRemoveStaleBackup,
        install_advance_spec(InstallPhase::AtRemoveStaleBackup, true) == InstallPhase::AtMoveAside,
        install_advance_spec(InstallPhase::AtMoveAside, true) == InstallPhase::AtCopyIn,
        install_advance_spec(InstallPhase::AtCopyIn, true) == InstallPhase::AtClearQuarantineLive,
        install_advance_spec(InstallPhase::AtClearQuarantineLive, true) == InstallPhase::Done,
{
}

} // verus!
