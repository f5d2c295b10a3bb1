use tray_echo::capture::{
    capture_plan, display_file_name, encode_capture, Area, CaptureError, CaptureSource,
};
use tray_echo::pixels::{load_icon, IconError, PixelError};

fn name(op_name: &[u8]) -> String {
    String::from_utf8(op_name.to_vec()).unwrap()
}

#[test]
fn two_displays_give_five_captures() {
    let plan = capture_plan(&vec![1, 23]).unwrap();
    assert_eq!(plan.len(), 5);
    let region = Area { x: 300, y: 300, width: 300, height: 300 };
    let names: Vec<String> = plan.iter().map(|op| name(&op.file_name)).collect();
    assert_eq!(
        names,
        vec![
            "target/1.png",
            "target/1-2.png",
            "target/23.png",
            "target/23-2.png",
            "target/capture_display_with_point.png"
        ]
    );
    assert_eq!(plan[0].source, CaptureSource::Display(0));
    assert_eq!(plan[0].area, None);
    assert_eq!(plan[1].source, CaptureSource::Display(0));
    assert_eq!(plan[1].area, Some(region));
    assert_eq!(plan[3].source, CaptureSource::Display(1));
    assert_eq!(plan[4].source, CaptureSource::ContainingPoint(100, 100));
    assert_eq!(plan[4].area, Some(region));
}

#[test]
fn one_display_gives_three_captures() {
    let plan = capture_plan(&vec![4294967295]).unwrap();
    assert_eq!(plan.len(), 3);
    assert_eq!(name(&plan[0].file_name), "target/4294967295.png");
    assert_eq!(name(&plan[1].file_name), "target/4294967295-2.png");
}

#[test]
fn no_displays_is_an_error() {
    assert_eq!(capture_plan(&Vec::new()).unwrap_err(), CaptureError::NoDisplays);
}

#[test]
fn file_names_follow_the_identifier() {
    assert_eq!(name(&display_file_name(0, false)), "target/0.png");
    assert_eq!(name(&display_file_name(0, true)), "target/0-2.png");
    assert_eq!(name(&display_file_name(1090, true)), "target/1090-2.png");
}

#[test]
fn captured_pixels_encode_as_png_and_decode_back() {
    let rgba: Vec<u8> = vec![
        255, 0, 0, 255, 0, 255, 0, 255, 0, 0, 255, 255, 10, 20, 30, 40, 1, 2, 3, 4, 5, 6, 7, 8,
    ];
    let png = encode_capture(rgba.clone(), 3, 2).unwrap();
    assert_eq!(&png[0..8], &[137, 80, 78, 71, 13, 10, 26, 10]);
    assert_ne!(png, rgba);
    let back = load_icon(&png).unwrap();
    assert_eq!((back.width, back.height), (3, 2));
    assert_eq!(back.rgba, rgba);
}

#[test]
fn badly_sized_pixels_are_refused() {
    assert_eq!(
        encode_capture(vec![0; 7], 1, 1).unwrap_err(),
        CaptureError::BadPixels(PixelError::ByteCountNotDivisibleBy4)
    );
    assert_eq!(
        encode_capture(vec![0; 8], 1, 1).unwrap_err(),
        CaptureError::BadPixels(PixelError::DimensionsVsPixelCount)
    );
}

#[test]
fn garbage_icon_is_undecodable() {
    assert_eq!(load_icon(&vec![1, 2, 3, 4, 5]).unwrap_err(), IconError::Undecodable);
}
