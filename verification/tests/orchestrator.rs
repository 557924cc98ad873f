use blueprint::blueprint::bindings::{Alias, Binding};
use blueprint::blueprint::locator::Locator;
use blueprint::blueprint::orchestrator::{
    estimate_total, expand_aliases, output_name, progress, Run, RunError,
};
use blueprint::blueprint::resolver::{Catalog, CatalogPack, PackListing, ReferenceError};
use blueprint::models::runs::{CompositorRunStatus, RunEvent};
use blueprint::models::templates::{AliasEntry, Template};

fn alias(name: &str, paths: &[&str]) -> Alias {
    Alias {
        name: name.to_string(),
        candidates: paths.iter().map(|path| Locator::packed("pack", path)).collect(),
    }
}

#[test]
fn two_by_three_run_renders_six_and_reaches_100_once() {
    let aliases = vec![alias("bg", &["b0", "b1"]), alias("fg", &["f0", "f1", "f2"])];
    let mut run = Run::start("run7", aliases, "fg");
    assert_eq!(run.status(), CompositorRunStatus::Running);
    assert_eq!(run.progress(), 0);
    let mut names = Vec::new();
    let mut reported = Vec::new();
    while run.current().is_some() {
        names.push(run.output_name().unwrap());
        reported.push(run.instance_done());
    }
    assert_eq!(names.len(), 6);
    assert_eq!(
        names,
        vec!["run7/f0", "run7/f1", "run7/f2", "run7/f0", "run7/f1", "run7/f2"]
    );
    assert_eq!(reported, vec![33, 67, 99, 99, 99, 100]);
    assert_eq!(reported.iter().filter(|percent| **percent == 100).count(), 1);
    assert_eq!(reported.last(), Some(&100));
    assert_eq!(run.status(), CompositorRunStatus::Succeeded);
    assert_eq!(run.progress(), 100);
}

#[test]
fn single_alias_run_counts_up_to_100() {
    let mut run = Run::start("r", vec![alias("fg", &["a", "b", "c", "d"])], "fg");
    let mut reported = Vec::new();
    while run.current().is_some() {
        reported.push(run.instance_done());
    }
    assert_eq!(reported, vec![25, 50, 75, 100]);
}

#[test]
fn run_without_instances_succeeds_at_once() {
    let run = Run::start("r", vec![alias("fg", &[])], "fg");
    assert_eq!(run.status(), CompositorRunStatus::Succeeded);
    assert_eq!(run.progress(), 100);
    assert!(run.current().is_none());
}

#[test]
fn aborted_run_fails_and_hands_out_nothing_more() {
    let mut run = Run::start("r", vec![alias("fg", &["a", "b", "c"])], "fg");
    assert_eq!(run.instance_done(), 33);
    run.abort();
    assert_eq!(run.status(), CompositorRunStatus::Failed);
    assert_eq!(run.progress(), 33);
    assert!(run.current().is_none());
    run.abort();
    assert_eq!(run.status(), CompositorRunStatus::Failed);
    let mut done = Run::start("r", vec![alias("fg", &["a"])], "fg");
    assert_eq!(done.instance_done(), 100);
    done.abort();
    assert_eq!(done.status(), CompositorRunStatus::Succeeded);
}

#[test]
fn missing_primary_alias_has_no_output_name() {
    let run = Run::start("r", vec![alias("bg", &["a"])], "fg");
    assert_eq!(run.output_name().unwrap_err(), RunError::MissingPrimary);
    let binding = Binding { entries: vec![("bg".to_string(), Locator::asset("x.png"))] };
    assert_eq!(output_name("id", &binding, "fg").unwrap_err(), RunError::MissingPrimary);
    assert_eq!(output_name("id", &binding, "bg").unwrap(), "id/x.png");
}

#[test]
fn progress_is_rounded_and_capped() {
    assert_eq!(progress(0, 3, false), 0);
    assert_eq!(progress(1, 3, false), 33);
    assert_eq!(progress(2, 3, false), 67);
    assert_eq!(progress(1, 8, false), 13);
    assert_eq!(progress(1, 200, false), 1);
    assert_eq!(progress(199, 200, false), 99);
    assert_eq!(progress(3, 3, false), 99);
    assert_eq!(progress(3, 3, true), 100);
    assert_eq!(progress(10, 3, false), 99);
    assert_eq!(progress(5, 0, false), 0);
    assert_eq!(progress(0, 0, true), 100);
    assert_eq!(progress(u64::MAX, 1, false), 99);
    assert_eq!(progress(1, u64::MAX, false), 0);
}

#[test]
fn estimate_is_the_primary_aliases_count() {
    let aliases = vec![alias("bg", &["b0", "b1"]), alias("fg", &["f0", "f1", "f2"])];
    assert_eq!(estimate_total(&aliases, "fg"), 3);
    assert_eq!(estimate_total(&aliases, "bg"), 2);
    assert_eq!(estimate_total(&aliases, "none"), 0);
}

#[test]
fn status_follows_the_events() {
    let (pending, running, succeeded, failed) = (
        CompositorRunStatus::Pending,
        CompositorRunStatus::Running,
        CompositorRunStatus::Succeeded,
        CompositorRunStatus::Failed,
    );
    assert_eq!(pending.after(RunEvent::Started), Some(running));
    assert_eq!(running.after(RunEvent::Completed), Some(succeeded));
    assert_eq!(pending.after(RunEvent::Aborted), Some(failed));
    assert_eq!(running.after(RunEvent::Aborted), Some(failed));
    assert_eq!(pending.after(RunEvent::Completed), None);
    assert_eq!(running.after(RunEvent::Started), None);
    for ended in [succeeded, failed] {
        for event in [RunEvent::Started, RunEvent::Completed, RunEvent::Aborted] {
            assert_eq!(ended.after(event), None);
        }
        assert!(ended.is_terminal());
    }
    assert!(!pending.is_terminal());
    assert!(!running.is_terminal());
}

#[test]
fn status_numbers_go_both_ways() {
    let (pending, running, succeeded, failed) = (
        CompositorRunStatus::Pending,
        CompositorRunStatus::Running,
        CompositorRunStatus::Succeeded,
        CompositorRunStatus::Failed,
    );
    assert_eq!(CompositorRunStatus::try_from(0), Ok(pending));
    assert_eq!(CompositorRunStatus::try_from(1), Ok(running));
    assert_eq!(CompositorRunStatus::try_from(2), Ok(succeeded));
    assert_eq!(CompositorRunStatus::try_from(3), Ok(failed));
    assert_eq!(CompositorRunStatus::try_from(4), Err("invalid status"));
    assert_eq!(CompositorRunStatus::try_from(u32::MAX), Err("invalid status"));
    for status in [pending, running, succeeded, failed] {
        assert_eq!(CompositorRunStatus::try_from(status.as_u32()), Ok(status));
    }
}

#[test]
fn aliases_of_a_template_are_expanded_in_order() {
    let catalog = Catalog {
        packs: vec![CatalogPack {
            pack: "trees".to_string(),
            listing: PackListing::Listed(vec!["oak.png".to_string(), "elm.png".to_string()]),
        }],
    };
    let template = Template {
        aliases: vec![
            AliasEntry { name: "$bg".to_string(), references: vec!["sky".to_string()] },
            AliasEntry {
                name: "$fg".to_string(),
                references: vec!["trees:*.png".to_string(), "trees:oak.*".to_string()],
            },
        ],
        layers: Vec::new(),
        canvas_size: (1, 1),
    };
    let aliases = expand_aliases(&template, &catalog).unwrap();
    assert_eq!(aliases.len(), 2);
    assert_eq!(aliases[0].name, "$bg");
    assert_eq!(aliases[0].candidates.len(), 1);
    assert_eq!(aliases[1].name, "$fg");
    let paths: Vec<&str> =
        aliases[1].candidates.iter().map(|locator| locator.path.as_str()).collect();
    assert_eq!(paths, vec!["oak.png", "elm.png", "oak.png"]);
    let broken = Template {
        aliases: vec![AliasEntry {
            name: "$x".to_string(),
            references: vec!["woods:*".to_string()],
        }],
        layers: Vec::new(),
        canvas_size: (1, 1),
    };
    assert_eq!(
        expand_aliases(&broken, &catalog).unwrap_err(),
        ReferenceError::UnknownReferenceKind
    );
}
