use photo_suffix_mover::index::DestinationIndex;
use photo_suffix_mover::mover::{
    dest_path_for, numbered_file_name, split_stem_ext, MoveResult, MoveStep, Mover, Reply, Request,
};

fn text(s: &str) -> String {
    s.to_string()
}

fn ask(request: Request) -> MoveStep {
    MoveStep::Ask(request)
}

fn hash(h: &str) -> Reply {
    Reply::Hash(Some(text(h)))
}

fn index_of(hashes: &[&str]) -> DestinationIndex {
    let mut index = DestinationIndex::new();
    for h in hashes {
        index.insert(text(h));
    }
    index
}

/// Begins the move of `/src/a/photo.jpg` to `/dst/a/photo.jpg`.
fn begin() -> Mover {
    let (mover, first) = Mover::new(text("/src/a/photo.jpg"), text("/dst/a/photo.jpg"));
    assert_eq!(first, Request::Hash(text("/src/a/photo.jpg")));
    mover
}

/// A move that has found the path asked for free and created its directory.
fn begin_relocation() -> Mover {
    let index = DestinationIndex::new();
    let mut mover = begin();
    assert_eq!(mover.next(hash("h1"), &index), ask(Request::Exists(text("/dst/a/photo.jpg"))));
    assert_eq!(mover.next(Reply::Exists(false), &index), ask(Request::CreateDirs(text("/dst/a"))));
    assert_eq!(
        mover.next(Reply::Done(true), &index),
        ask(Request::Rename { from: text("/src/a/photo.jpg"), to: text("/dst/a/photo.jpg") })
    );
    mover
}

#[test]
fn dest_path_keeps_the_place_under_the_root() {
    assert_eq!(dest_path_for("/src", "/dst", "/src/a/b.jpg"), "/dst/a/b.jpg");
    assert_eq!(dest_path_for("/src", "/dst", "/src/b.jpg"), "/dst/b.jpg");
    assert_eq!(dest_path_for("/src/", "/dst/", "/src/a/b.jpg"), "/dst/a/b.jpg");
    assert_eq!(dest_path_for("src", "dst", "src/a/b.jpg"), "dst/a/b.jpg");
    assert_eq!(dest_path_for("/photos/2024", "/backup", "/photos/2024/may/x_7.png"), "/backup/may/x_7.png");
}

#[test]
fn dest_path_takes_whole_components_only() {
    // `/srcx` does not lie under `/src`.
    assert_eq!(dest_path_for("/src", "/dst", "/srcx/b.jpg"), "/srcx/b.jpg");
}

#[test]
fn dest_path_of_a_file_outside_the_root_is_the_file_adjoined() {
    assert_eq!(dest_path_for("/src", "/dst", "/other/b.jpg"), "/other/b.jpg");
    assert_eq!(dest_path_for("src", "dst", "other/b.jpg"), "dst/other/b.jpg");
}

#[test]
fn stem_and_extension_are_those_of_the_last_component() {
    assert_eq!(split_stem_ext("/a/b/photo.jpg"), (text("photo"), text("jpg")));
    assert_eq!(split_stem_ext("/a/b.c/photo"), (text("photo"), text("")));
    assert_eq!(split_stem_ext("/a/b/.hidden"), (text(".hidden"), text("")));
    assert_eq!(split_stem_ext("/a/b/archive.tar.gz"), (text("archive.tar"), text("gz")));
    assert_eq!(split_stem_ext("photo.jpg"), (text("photo"), text("jpg")));
    assert_eq!(split_stem_ext("/a/b/photo.jpg/"), (text("photo"), text("jpg")));
    assert_eq!(split_stem_ext("/a/b/photo."), (text("photo"), text("")));
}

#[test]
fn stem_and_extension_of_a_path_without_a_file_name_are_empty() {
    assert_eq!(split_stem_ext("/"), (text(""), text("")));
    assert_eq!(split_stem_ext(""), (text(""), text("")));
    assert_eq!(split_stem_ext("/a/.."), (text(""), text("")));
}

#[test]
fn numbered_name_puts_the_number_before_the_extension() {
    assert_eq!(numbered_file_name("photo", "jpg", 1), "photo-1.jpg");
    assert_eq!(numbered_file_name("photo", "jpg", 2), "photo-2.jpg");
    assert_eq!(numbered_file_name("photo", "jpg", 10), "photo-10.jpg");
    assert_eq!(numbered_file_name("archive.tar", "gz", 3), "archive.tar-3.gz");
    assert_eq!(numbered_file_name("", "jpg", 1), "-1.jpg");
    assert_eq!(numbered_file_name("photo", "jpg", u64::MAX), "photo-18446744073709551615.jpg");
}

#[test]
fn numbered_name_without_extension_ends_with_the_number() {
    assert_eq!(numbered_file_name("photo", "", 1), "photo-1");
    assert_eq!(numbered_file_name(".hidden", "", 12), ".hidden-12");
    assert_eq!(numbered_file_name("", "", 0), "-0");
}

#[test]
fn move_of_known_content_is_skipped_at_once() {
    let index = index_of(&["h0", "h1", "h2"]);
    let mut mover = begin();
    assert_eq!(mover.next(hash("h1"), &index), MoveStep::Finished(MoveResult::SkippedDuplicate));
    // The move is over: whatever comes now is no part of it.
    assert_eq!(mover.next(Reply::Exists(false), &index), MoveStep::Failed);
    assert_eq!(mover.next(Reply::Done(true), &index), MoveStep::Failed);
}

#[test]
fn move_fails_where_the_source_cannot_be_read() {
    let index = DestinationIndex::new();
    let mut mover = begin();
    assert_eq!(mover.next(Reply::Hash(None), &index), MoveStep::Failed);
    assert_eq!(mover.next(hash("h1"), &index), MoveStep::Failed);
}

#[test]
fn move_to_a_free_path_creates_the_directory_and_renames() {
    let mut mover = begin_relocation();
    assert_eq!(
        mover.next(Reply::Done(true), &DestinationIndex::new()),
        MoveStep::Finished(MoveResult::Moved(text("/dst/a/photo.jpg")))
    );
}

#[test]
fn move_fails_where_the_directory_cannot_be_created() {
    let index = DestinationIndex::new();
    let mut mover = begin();
    mover.next(hash("h1"), &index);
    assert_eq!(mover.next(Reply::Exists(false), &index), ask(Request::CreateDirs(text("/dst/a"))));
    assert_eq!(mover.next(Reply::Done(false), &index), MoveStep::Failed);
}

#[test]
fn move_to_a_path_without_a_directory_renames_at_once() {
    let index = DestinationIndex::new();
    let (mut mover, _) = Mover::new(text("/src/photo.jpg"), text(""));
    assert_eq!(mover.next(hash("h1"), &index), ask(Request::Exists(text(""))));
    assert_eq!(
        mover.next(Reply::Exists(false), &index),
        ask(Request::Rename { from: text("/src/photo.jpg"), to: text("") })
    );
}

#[test]
fn move_falls_back_to_copy_flush_and_remove() {
    let index = DestinationIndex::new();
    let mut mover = begin_relocation();
    assert_eq!(
        mover.next(Reply::Done(false), &index),
        ask(Request::Copy { from: text("/src/a/photo.jpg"), to: text("/dst/a/photo.jpg") })
    );
    assert_eq!(mover.next(Reply::Done(true), &index), ask(Request::Sync(text("/dst/a/photo.jpg"))));
    assert_eq!(mover.next(Reply::Done(true), &index), ask(Request::Remove(text("/src/a/photo.jpg"))));
    assert_eq!(
        mover.next(Reply::Done(true), &index),
        MoveStep::Finished(MoveResult::Moved(text("/dst/a/photo.jpg")))
    );
}

#[test]
fn move_goes_on_where_the_flush_fails() {
    let index = DestinationIndex::new();
    let mut mover = begin_relocation();
    mover.next(Reply::Done(false), &index);
    mover.next(Reply::Done(true), &index);
    assert_eq!(mover.next(Reply::Done(false), &index), ask(Request::Remove(text("/src/a/photo.jpg"))));
    assert_eq!(
        mover.next(Reply::Done(true), &index),
        MoveStep::Finished(MoveResult::Moved(text("/dst/a/photo.jpg")))
    );
}

#[test]
fn move_fails_where_the_copy_fails() {
    let index = DestinationIndex::new();
    let mut mover = begin_relocation();
    mover.next(Reply::Done(false), &index);
    assert_eq!(mover.next(Reply::Done(false), &index), MoveStep::Failed);
}

#[test]
fn move_fails_where_the_source_cannot_be_removed() {
    let index = DestinationIndex::new();
    let mut mover = begin_relocation();
    mover.next(Reply::Done(false), &index);
    mover.next(Reply::Done(true), &index);
    mover.next(Reply::Done(true), &index);
    assert_eq!(mover.next(Reply::Done(false), &index), MoveStep::Failed);
}

#[test]
fn move_onto_the_same_content_is_skipped() {
    let index = DestinationIndex::new();
    let mut mover = begin();
    mover.next(hash("h1"), &index);
    assert_eq!(mover.next(Reply::Exists(true), &index), ask(Request::Hash(text("/dst/a/photo.jpg"))));
    assert_eq!(mover.next(hash("h1"), &index), MoveStep::Finished(MoveResult::SkippedDuplicate));
}

#[test]
fn move_onto_other_content_takes_the_first_free_number() {
    let index = DestinationIndex::new();
    let mut mover = begin();
    mover.next(hash("h1"), &index);
    mover.next(Reply::Exists(true), &index);
    assert_eq!(mover.next(hash("h2"), &index), ask(Request::Exists(text("/dst/a/photo-1.jpg"))));
    assert_eq!(
        mover.next(Reply::Exists(true), &index),
        ask(Request::Exists(text("/dst/a/photo-2.jpg")))
    );
    assert_eq!(
        mover.next(Reply::Exists(true), &index),
        ask(Request::Exists(text("/dst/a/photo-3.jpg")))
    );
    assert_eq!(mover.next(Reply::Exists(false), &index), ask(Request::CreateDirs(text("/dst/a"))));
    assert_eq!(
        mover.next(Reply::Done(true), &index),
        ask(Request::Rename { from: text("/src/a/photo.jpg"), to: text("/dst/a/photo-3.jpg") })
    );
    assert_eq!(
        mover.next(Reply::Done(true), &index),
        MoveStep::Finished(MoveResult::Moved(text("/dst/a/photo-3.jpg")))
    );
}

#[test]
fn move_onto_a_file_that_cannot_be_read_takes_a_number() {
    let index = DestinationIndex::new();
    let mut mover = begin();
    mover.next(hash("h1"), &index);
    mover.next(Reply::Exists(true), &index);
    assert_eq!(
        mover.next(Reply::Hash(None), &index),
        ask(Request::Exists(text("/dst/a/photo-1.jpg")))
    );
}

#[test]
fn move_onto_a_name_without_extension_appends_the_number() {
    let index = DestinationIndex::new();
    let (mut mover, _) = Mover::new(text("/src/README"), text("/dst/README"));
    mover.next(hash("h1"), &index);
    mover.next(Reply::Exists(true), &index);
    assert_eq!(mover.next(hash("h2"), &index), ask(Request::Exists(text("/dst/README-1"))));
    assert_eq!(mover.next(Reply::Exists(false), &index), ask(Request::CreateDirs(text("/dst"))));
    assert_eq!(
        mover.next(Reply::Done(true), &index),
        ask(Request::Rename { from: text("/src/README"), to: text("/dst/README-1") })
    );
}

#[test]
fn move_onto_a_taken_path_without_a_directory_fails() {
    let index = DestinationIndex::new();
    let (mut mover, _) = Mover::new(text("/src/photo.jpg"), text("/"));
    mover.next(hash("h1"), &index);
    assert_eq!(mover.next(Reply::Exists(true), &index), ask(Request::Hash(text("/"))));
    assert_eq!(mover.next(Reply::Hash(None), &index), MoveStep::Failed);
}

#[test]
fn move_takes_a_reply_of_the_wrong_kind_as_a_failure() {
    let index = DestinationIndex::new();

    let mut mover = begin();
    assert_eq!(mover.next(Reply::Exists(true), &index), MoveStep::Failed);

    let mut mover = begin();
    mover.next(hash("h1"), &index);
    assert_eq!(mover.next(Reply::Done(true), &index), MoveStep::Failed);

    let mut mover = begin();
    mover.next(hash("h1"), &index);
    mover.next(Reply::Exists(false), &index);
    assert_eq!(mover.next(Reply::Exists(true), &index), MoveStep::Failed);

    // A rename that is not reported done counts as failed: the copy is tried.
    let mut mover = begin_relocation();
    assert_eq!(
        mover.next(Reply::Exists(true), &index),
        ask(Request::Copy { from: text("/src/a/photo.jpg"), to: text("/dst/a/photo.jpg") })
    );
}

#[test]
fn move_reads_the_index_only_for_the_source() {
    // The fingerprint of the file in the way is compared with that of the
    // source, not looked up in the index.
    let index = index_of(&["h2"]);
    let mut mover = begin();
    mover.next(hash("h1"), &index);
    mover.next(Reply::Exists(true), &index);
    assert_eq!(mover.next(hash("h2"), &index), ask(Request::Exists(text("/dst/a/photo-1.jpg"))));
}
