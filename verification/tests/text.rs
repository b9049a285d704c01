use call_of_cthulhu::text::{
    achievements_image_path, actions_path, decimal, image_path, image_pattern, intro_image_path,
    number_list, text_path,
};
use call_of_cthulhu::validate::{screen_errors, screen_is_missing, validate_screens, ScreenFiles};

#[test]
fn numbers_are_written_in_decimal() {
    assert_eq!(decimal(0), "0");
    assert_eq!(decimal(7), "7");
    assert_eq!(decimal(9), "9");
    assert_eq!(decimal(10), "10");
    assert_eq!(decimal(111), "111");
    assert_eq!(decimal(1_234_567_890), "1234567890");
    assert_eq!(decimal(usize::MAX), usize::MAX.to_string());
    for n in (0..100_000).step_by(37) {
        assert_eq!(decimal(n), n.to_string());
    }
}

#[test]
fn lists_are_written_in_brackets() {
    assert_eq!(number_list(&vec![]), "[]");
    assert_eq!(number_list(&vec![0]), "[0]");
    assert_eq!(number_list(&vec![1, 22, 333]), "[1, 22, 333]");
    let list = vec![5usize, 0, 17, 111, usize::MAX];
    assert_eq!(number_list(&list), format!("{:?}", list));
}

#[test]
fn files_of_a_screen_lie_under_the_data_path() {
    assert_eq!(text_path("data", 7), "data/text/7.txt");
    assert_eq!(actions_path("data", 7), "data/actions/7.json");
    assert_eq!(image_path("data", 7), "data/images/7.png");
    assert_eq!(image_pattern("data", 7), "data/images/7_*.png");
    assert_eq!(text_path("data/", 111), "data//text/111.txt");
    assert_eq!(actions_path("", 0), "/actions/0.json");
    assert_eq!(intro_image_path("data/"), "data//images/intro.png");
    assert_eq!(achievements_image_path("x"), "x/images/achievements.png");
}

#[test]
fn eleven_screens_are_not_part_of_the_game() {
    let missing: Vec<usize> = (0..=200).filter(|n| screen_is_missing(*n)).collect();
    assert_eq!(missing, vec![5, 13, 16, 27, 38, 49, 61, 71, 82, 93, 104]);
}

fn complete() -> ScreenFiles {
    ScreenFiles {
        images: vec!["data/images/1.png".to_string()],
        image_exists: vec![true],
        text_exists: true,
        actions_exists: true,
    }
}

#[test]
fn a_complete_screen_has_no_errors() {
    assert_eq!(screen_errors("data", 1, &complete()), Vec::<String>::new());
}

#[test]
fn every_missing_file_is_an_error() {
    let files = ScreenFiles {
        images: Vec::new(),
        image_exists: Vec::new(),
        text_exists: false,
        actions_exists: false,
    };
    assert_eq!(
        screen_errors("data", 12, &files),
        vec![
            "No images found for screen 12",
            "Missing text file for screen 12: data/text/12.txt",
            "Missing actions file for screen 12: data/actions/12.json",
        ]
    );
    let files = ScreenFiles {
        images: vec!["a.png".to_string(), "b.png".to_string(), "c.png".to_string()],
        image_exists: vec![false, true, false],
        text_exists: true,
        actions_exists: false,
    };
    assert_eq!(
        screen_errors("d/", 3, &files),
        vec![
            "Missing actions file for screen 3: d//actions/3.json",
            "Missing image file for screen 3: a.png",
            "Missing image file for screen 3: c.png",
        ]
    );
}

#[test]
fn validation_passes_when_every_screen_is_complete() {
    let files: Vec<ScreenFiles> = (0..112).map(|_| complete()).collect();
    assert_eq!(validate_screens("data", &files), Ok(()));
}

#[test]
fn validation_collects_the_errors_screen_by_screen() {
    let mut files: Vec<ScreenFiles> = (0..112).map(|_| complete()).collect();
    files[111].text_exists = false;
    files[0].images.clear();
    files[0].image_exists.clear();
    files[40].image_exists[0] = false;
    // screens that are not part of the game are not looked at
    files[5].text_exists = false;
    files[104].actions_exists = false;
    assert_eq!(
        validate_screens("data", &files),
        Err(vec![
            "No images found for screen 0".to_string(),
            "Missing image file for screen 40: data/images/1.png".to_string(),
            "Missing text file for screen 111: data/text/111.txt".to_string(),
        ])
    );
}
