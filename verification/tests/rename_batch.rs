use reel::utils::renamer::{rename_files, RenameReply, RenameRequest, RenameStage};
use std::path::PathBuf;

fn pair(old: &str, new: &str) -> (PathBuf, String) {
    (PathBuf::from(old), new.to_string())
}

fn free(destination: &str) -> RenameReply {
    RenameReply::Inspected { same: false, exists: false, destination: destination.to_string() }
}

#[test]
fn test_rename_nothing_is_done_at_once() {
    let batch = rename_files(vec![], None);
    assert_eq!(batch.stage, RenameStage::Done);
    assert_eq!(batch.request(), RenameRequest::Finished);
    assert_eq!(batch.outcome(), Some(Ok(vec![])));
}

#[test]
fn test_rename_moves_each_file_after_looking() {
    let mut batch = rename_files(
        vec![pair("/in/a.mkv", "A (1999).mkv"), pair("/in/b.mkv", "B (2000).mkv")],
        Some(PathBuf::from("/out")),
    );
    assert_eq!(batch.request(), RenameRequest::Inspect { at: 0 });
    assert!(batch.advance(free("/out/A (1999).mkv")));
    assert_eq!(batch.request(), RenameRequest::Move { at: 0 });
    assert!(batch.advance(RenameReply::Moved(Ok("a.mkv".to_string()))));
    assert_eq!(batch.request(), RenameRequest::Inspect { at: 1 });
    assert!(batch.advance(free("/out/B (2000).mkv")));
    assert_eq!(batch.request(), RenameRequest::Move { at: 1 });
    assert!(batch.advance(RenameReply::Moved(Ok("b.mkv".to_string()))));
    assert_eq!(batch.request(), RenameRequest::Finished);
    assert_eq!(
        batch.outcome(),
        Some(Ok(vec![
            ("a.mkv".to_string(), "A (1999).mkv".to_string()),
            ("b.mkv".to_string(), "B (2000).mkv".to_string()),
        ]))
    );
}

#[test]
fn test_rename_passes_over_a_file_that_keeps_its_path() {
    let mut batch = rename_files(vec![pair("/in/a.mkv", "a.mkv"), pair("/in/b.mkv", "c.mkv")], None);
    assert!(batch.advance(RenameReply::Inspected {
        same: true,
        exists: true,
        destination: "/in/a.mkv".to_string(),
    }));
    assert_eq!(batch.request(), RenameRequest::Inspect { at: 1 });
    assert!(batch.advance(free("/in/c.mkv")));
    assert!(batch.advance(RenameReply::Moved(Ok("b.mkv".to_string()))));
    assert_eq!(batch.outcome(), Some(Ok(vec![("b.mkv".to_string(), "c.mkv".to_string())])));
}

#[test]
fn test_rename_collision_ends_the_batch_after_earlier_moves() {
    let mut batch = rename_files(
        vec![pair("/in/a.mkv", "x.mkv"), pair("/in/b.mkv", "y.mkv"), pair("/in/c.mkv", "z.mkv")],
        None,
    );
    assert!(batch.advance(free("/in/x.mkv")));
    assert!(batch.advance(RenameReply::Moved(Ok("a.mkv".to_string()))));
    assert!(batch.advance(RenameReply::Inspected {
        same: false,
        exists: true,
        destination: "/in/y.mkv".to_string(),
    }));
    assert_eq!(batch.stage, RenameStage::Failed);
    assert_eq!(batch.request(), RenameRequest::Finished);
    assert_eq!(batch.renamed, vec![("a.mkv".to_string(), "x.mkv".to_string())]);
    assert!(!batch.advance(free("/in/z.mkv")));
    assert!(!batch.advance(RenameReply::Moved(Ok("c.mkv".to_string()))));
    assert_eq!(batch.renamed.len(), 1);
    assert_eq!(batch.outcome(), Some(Err("Destination already exists: /in/y.mkv".to_string())));
}

#[test]
fn test_rename_failed_move_ends_the_batch() {
    let mut batch = rename_files(vec![pair("/in/a.mkv", "x.mkv"), pair("/in/b.mkv", "y.mkv")], None);
    assert!(batch.advance(free("/in/x.mkv")));
    assert!(batch.advance(RenameReply::Moved(Err(
        "Failed to rename /in/a.mkv: permission denied".to_string()
    ))));
    assert_eq!(batch.request(), RenameRequest::Finished);
    assert_eq!(
        batch.outcome(),
        Some(Err("Failed to rename /in/a.mkv: permission denied".to_string()))
    );
}

#[test]
fn test_rename_refuses_an_answer_of_another_kind() {
    let mut batch = rename_files(vec![pair("/in/a.mkv", "x.mkv")], None);
    assert!(!batch.advance(RenameReply::Moved(Ok("a.mkv".to_string()))));
    assert_eq!(batch.stage, RenameStage::Inspect);
    assert!(batch.renamed.is_empty());
    assert!(batch.advance(free("/in/x.mkv")));
    assert!(!batch.advance(free("/in/x.mkv")));
    assert_eq!(batch.stage, RenameStage::Move);
    assert_eq!(batch.outcome(), None);
}
