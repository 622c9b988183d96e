use cargo_player::custom_frame::{
    cursor_of, hit_test_nca, CoveredArea, Hit, Point, WindowRect, TITLEBAR_HEIGHT,
};

const WINDOW: WindowRect = WindowRect {
    left: 100,
    top: 100,
    right: 500,
    bottom: 400,
};

fn hit(x: i32, y: i32) -> Hit {
    hit_test_nca(Point { x, y }, WINDOW, None)
}

#[test]
fn edges_and_corners() {
    assert_eq!(Hit::TopLeft, hit(100, 100));
    assert_eq!(Hit::TopLeft, hit(109, 104));
    assert_eq!(Hit::Top, hit(110, 104));
    assert_eq!(Hit::Top, hit(489, 100));
    assert_eq!(Hit::TopRight, hit(490, 104));
    assert_eq!(Hit::TopRight, hit(499, 100));
    assert_eq!(Hit::Top, hit(500, 100));
    assert_eq!(Hit::Left, hit(100, 105));
    assert_eq!(Hit::Left, hit(109, 250));
    assert_eq!(Hit::Nowhere, hit(110, 105));
    assert_eq!(Hit::Nowhere, hit(300, 250));
    assert_eq!(Hit::Nowhere, hit(300, 389));
    assert_eq!(Hit::Right, hit(490, 250));
    assert_eq!(Hit::Nowhere, hit(500, 250));
    assert_eq!(Hit::BottomLeft, hit(105, 390));
    assert_eq!(Hit::Bottom, hit(300, 390));
    assert_eq!(Hit::Bottom, hit(300, 399));
    assert_eq!(Hit::BottomRight, hit(499, 399));
    assert_eq!(Hit::Nowhere, hit(300, 400));
    assert_eq!(Hit::Nowhere, hit(300, 99));
    assert_eq!(Hit::Left, hit(100, 99));
    assert_eq!(Hit::Nowhere, hit(99, 250));
    assert_eq!(80, TITLEBAR_HEIGHT);
}

#[test]
fn title_bar_wins_over_lower_edge() {
    let low = WindowRect {
        left: 0,
        top: 0,
        right: 200,
        bottom: 60,
    };
    assert_eq!(Hit::Nowhere, hit_test_nca(Point { x: 100, y: 55 }, low, None));
    assert_eq!(Hit::Top, hit_test_nca(Point { x: 100, y: 4 }, low, None));
}

#[test]
fn covered_title_bar_is_the_max_button() {
    let area = Some(CoveredArea {
        left: 10,
        right: 50,
        bottom: 20,
    });
    let at = |x: i32, y: i32| hit_test_nca(Point { x, y }, WINDOW, area);
    assert_eq!(Hit::MaxButton, at(120, 105));
    assert_eq!(Hit::MaxButton, at(200, 140));
    assert_eq!(Hit::MaxButton, at(150, 120));
    assert_eq!(Hit::Nowhere, at(119, 120));
    assert_eq!(Hit::Nowhere, at(201, 120));
    assert_eq!(Hit::Top, at(150, 104));
    assert_eq!(Hit::Nowhere, at(150, 141));
    assert_eq!(Hit::TopLeft, at(105, 102));
}

#[test]
fn extreme_coordinates_do_not_wrap() {
    let window = WindowRect {
        left: i32::MAX - 5,
        top: i32::MAX - 5,
        right: i32::MAX,
        bottom: i32::MAX,
    };
    let area = Some(CoveredArea {
        left: i32::MAX,
        right: i32::MAX,
        bottom: i32::MAX,
    });
    assert_eq!(
        Hit::TopLeft,
        hit_test_nca(
            Point {
                x: i32::MAX,
                y: i32::MAX - 2
            },
            window,
            area
        )
    );
    let window = WindowRect {
        left: i32::MIN,
        top: i32::MIN,
        right: i32::MIN + 5,
        bottom: i32::MIN + 5,
    };
    assert_eq!(
        Hit::TopLeft,
        hit_test_nca(
            Point {
                x: i32::MIN,
                y: i32::MIN
            },
            window,
            None
        )
    );
}

#[test]
fn numbers_of_the_window_system() {
    assert_eq!(0, Hit::Nowhere.code());
    assert_eq!(9, Hit::MaxButton.code());
    assert_eq!(10, Hit::Left.code());
    assert_eq!(11, Hit::Right.code());
    assert_eq!(12, Hit::Top.code());
    assert_eq!(13, Hit::TopLeft.code());
    assert_eq!(14, Hit::TopRight.code());
    assert_eq!(15, Hit::Bottom.code());
    assert_eq!(16, Hit::BottomLeft.code());
    assert_eq!(17, Hit::BottomRight.code());
}

#[test]
fn cursor_of_a_message() {
    assert_eq!(Point { x: 300, y: 200 }, cursor_of((200 << 16) | 300));
    assert_eq!(Point { x: 0, y: 0 }, cursor_of(0));
    assert_eq!(
        Point {
            x: 0xffff,
            y: 0xffff
        },
        cursor_of(-1)
    );
    assert_eq!(Point { x: 1, y: 0 }, cursor_of(0x1_0000_0001));
    assert_eq!(Point { x: 0, y: 0x8000 }, cursor_of(0x8000_0000));
}
