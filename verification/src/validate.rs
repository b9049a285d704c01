//! Checking that the files of every screen are there.
//!
//! Looking at the disk is left to the caller. It reports, for every screen,
//! which images it found and whether the text, the actions and each image
//! exist; what follows from that is decided here.

use vstd::prelude::*;
use vstd::string::StringExecFns;
use crate::graph::LAST_SCREEN;
use crate::text::{
    actions_path,
    actions_path_spec,
    decimal,
    decimal_spec,
    text_path,
    text_path_spec,
    texts_of,
};

verus! {

/// Whether the game has no screen with this number, so that none is looked
/// for.
pub open spec fn screen_is_missing_spec(screen_no: usize) -> bool {
    ||| screen_no == 5
    ||| screen_no == 13
    ||| screen_no == 16
    ||| screen_no == 27
    ||| screen_no == 38
    ||| screen_no == 49
    ||| screen_no == 61
    ||| screen_no == 71
    ||| screen_no == 82
    ||| screen_no == 93
    ||| screen_no == 104
}

/// Whether the game has no screen with this number.
pub fn screen_is_missing(screen_no: usize) -> (missing: bool)
    ensures
        missing == screen_is_missing_spec(screen_no),
{
    screen_no == 5 || screen_no == 13 || screen_no == 16 || screen_no == 27 || screen_no == 38
        || screen_no == 49 || screen_no == 61 || screen_no == 71 || screen_no == 82 || screen_no
        == 93 || screen_no == 104
}

/// What was found on disk for one screen.
pub struct ScreenFiles {
    /// The names of the images of the screen.
    pub images: Vec<String>,
    /// Whether each of these images exists.
    pub image_exists: Vec<bool>,
    /// Whether the text of the screen exists.
    pub text_exists: bool,
    /// Whether the actions of the screen exist.
    pub actions_exists: bool,
}

impl ScreenFiles {
    /// Every image has its report.
    pub open spec fn wf(&self) -> bool {
        self.images@.len() == self.image_exists@.len()
    }
}

/// The complaint about a screen without images.
pub open spec fn no_images_error(screen_no: usize) -> Seq<char> {
    "No images found for screen "@ + decimal_spec(screen_no as nat)
}

/// The complaint about a missing file of the kind `kind` at `path`.
pub open spec fn missing_file_error(kind: Seq<char>, screen_no: usize, path: Seq<char>) -> Seq<
    char,
> {
    "Missing "@ + kind + " file for screen "@ + decimal_spec(screen_no as nat) + ": "@ + path
}

/// The complaints about the first `upto` images of a screen: one for every
/// image that does not exist.
pub open spec fn image_errors(screen_no: usize, files: ScreenFiles, upto: int) -> Seq<Seq<char>>
    decreases upto,
{
    if upto <= 0 {
        Seq::empty()
    } else {
        image_errors(screen_no, files, upto - 1) + if files.image_exists@[upto - 1] {
            Seq::<Seq<char>>::empty()
        } else {
            seq![missing_file_error("image"@, screen_no, files.images@[upto - 1]@)]
        }
    }
}

/// The complaints about one screen: that it has no images, that its text is
/// missing, that its actions are missing, and one for every image that does
/// not exist, in this order.
pub open spec fn screen_errors_spec(data_path: Seq<char>, screen_no: usize, files: ScreenFiles) -> Seq<
    Seq<char>,
> {
    (if files.images@.len() == 0 {
        seq![no_images_error(screen_no)]
    } else {
        Seq::empty()
    }) + (if files.text_exists {
        Seq::<Seq<char>>::empty()
    } else {
        seq![missing_file_error("text"@, screen_no, text_path_spec(data_path, screen_no))]
    }) + (if files.actions_exists {
        Seq::<Seq<char>>::empty()
    } else {
        seq![missing_file_error("actions"@, screen_no, actions_path_spec(data_path, screen_no))]
    }) + image_errors(screen_no, files, files.images@.len() as int)
}

/// The complaints about the screens before `upto`. Screens that the game
/// does not have are passed over.
pub open spec fn errors_before(data_path: Seq<char>, files: Seq<ScreenFiles>, upto: int) -> Seq<
    Seq<char>,
>
    decreases upto,
{
    if upto <= 0 {
        Seq::empty()
    } else {
        errors_before(data_path, files, upto - 1) + if screen_is_missing_spec((upto - 1) as usize) {
            Seq::<Seq<char>>::empty()
        } else {
            screen_errors_spec(data_path, (upto - 1) as usize, files[upto - 1])
        }
    }
}

fn missing_file(kind: &str, screen_no: usize, path: &str) -> (text: String)
    ensures
        text@ == missing_file_error(kind@, screen_no, path@),
{
    let mut text = String::from_str("Missing ");
    text.append(kind);
    text.append(" file for screen ");
    text.append(decimal(screen_no).as_str());
    text.append(": ");
    text.append(path);
    text
}

/// Appends `more` to `all`.
fn append_all(all: &mut Vec<String>, more: Vec<String>)
    ensures
        texts_of(final(all)@) == texts_of(old(all)@) + texts_of(more@),
{
    let ghost start = texts_of(all@);
    let ghost added = texts_of(more@);
    let count = more.len();
    let mut i: usize = 0;
    while i < count
        invariant
            count == more@.len(),
            i <= count,
            added == texts_of(more@),
            texts_of(all@) == start + added.take(i as int),
        decreases count - i,
    {
        let text = more[i].clone();
        let ghost before = texts_of(all@);
        all.push(text);
        assert(texts_of(all@) =~= before.push(added[i as int]));
        assert(start + added.take(i + 1) =~= (start + added.take(i as int)).push(added[i as int]));
        i += 1;
    }
    assert(added.take(count as int) =~= added);
}

/// The complaints about one screen.
pub fn screen_errors(data_path: &str, screen_no: usize, files: &ScreenFiles) -> (errors: Vec<String>)
    requires
        files.wf(),
    ensures
        texts_of(errors@) == screen_errors_spec(data_path@, screen_no, *files),
{
    let mut errors: Vec<String> = Vec::new();
    assert(texts_of(errors@) =~= Seq::<Seq<char>>::empty());
    if files.images.len() == 0 {
        let mut text = String::from_str("No images found for screen ");
        text.append(decimal(screen_no).as_str());
        let ghost before = texts_of(errors@);
        errors.push(text);
        assert(texts_of(errors@) =~= before + seq![no_images_error(screen_no)]);
    } else {
        assert(texts_of(errors@) =~= texts_of(errors@) + Seq::<Seq<char>>::empty());
    }
    let ghost first = texts_of(errors@);
    if !files.text_exists {
        let path = text_path(data_path, screen_no);
        let text = missing_file("text", screen_no, path.as_str());
        errors.push(text);
        assert(texts_of(errors@) =~= first + seq![
            missing_file_error("text"@, screen_no, text_path_spec(data_path@, screen_no)),
        ]);
    } else {
        assert(texts_of(errors@) =~= first + Seq::<Seq<char>>::empty());
    }
    let ghost second = texts_of(errors@);
    if !files.actions_exists {
        let path = actions_path(data_path, screen_no);
        let text = missing_file("actions", screen_no, path.as_str());
        errors.push(text);
        assert(texts_of(errors@) =~= second + seq![
            missing_file_error("actions"@, screen_no, actions_path_spec(data_path@, screen_no)),
        ]);
    } else {
        assert(texts_of(errors@) =~= second + Seq::<Seq<char>>::empty());
    }
    let ghost third = texts_of(errors@);
    let mut i: usize = 0;
    assert(texts_of(errors@) =~= third + image_errors(screen_no, *files, 0));
    while i < files.images.len()
        invariant
            files.wf(),
            i <= files.images@.len(),
            texts_of(errors@) == third + image_errors(screen_no, *files, i as int),
        decreases files.images@.len() - i,
    {
        let ghost before = texts_of(errors@);
        if !files.image_exists[i] {
            let text = missing_file("image", screen_no, files.images[i].as_str());
            errors.push(text);
            assert(texts_of(errors@) =~= before + seq![
                missing_file_error("image"@, screen_no, files.images@[i as int]@),
            ]);
        } else {
            assert(texts_of(errors@) =~= before + Seq::<Seq<char>>::empty());
        }
        assert(texts_of(errors@) =~= third + image_errors(screen_no, *files, i + 1));
        i += 1;
    }
    errors
}

/// Checks the screens `0..=LAST_SCREEN`, where `files[n]` is what was found
/// for screen `n`. All is well if there is no complaint; else the
/// complaints come back, screen by screen.
pub fn validate_screens(data_path: &str, files: &Vec<ScreenFiles>) -> (checked: Result<
    (),
    Vec<String>,
>)
    requires
        files@.len() == LAST_SCREEN + 1,
        forall|n: int| 0 <= n < files@.len() ==> (#[trigger] files@[n]).wf(),
    ensures
        checked is Ok <==> errors_before(data_path@, files@, LAST_SCREEN + 1).len() == 0,
        checked matches Err(errors) ==> texts_of(errors@) == errors_before(
            data_path@,
            files@,
            LAST_SCREEN + 1,
        ),
{
    let mut errors: Vec<String> = Vec::new();
    assert(texts_of(errors@) =~= Seq::<Seq<char>>::empty());
    let mut screen_no: usize = 0;
    while screen_no <= LAST_SCREEN
        invariant
            files@.len() == LAST_SCREEN + 1,
            forall|n: int| 0 <= n < files@.len() ==> (#[trigger] files@[n]).wf(),
            screen_no <= LAST_SCREEN + 1,
            texts_of(errors@) == errors_before(data_path@, files@, screen_no as int),
        decreases LAST_SCREEN + 1 - screen_no,
    {
        let ghost before = texts_of(errors@);
        if !screen_is_missing(screen_no) {
            let found = screen_errors(data_path, screen_no, &files[screen_no]);
            append_all(&mut errors, found);
        } else {
            assert(texts_of(errors@) =~= before + Seq::<Seq<char>>::empty());
        }
        screen_no += 1;
    }
    if errors.len() == 0 {
        Ok(())
    } else {
        Err(errors)
    }
}

} // verus!
