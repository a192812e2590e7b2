//! The monitor layout of a machine.

use inputshare::displays::{differ, mac_display, monitor, ordered};
use inputshare::{DisplayInfo, Scale};

fn display(id: &str, x: i32) -> DisplayInfo {
    DisplayInfo {
        id: id.into(),
        name: id.into(),
        x,
        y: 0,
        width: 1920,
        height: 1080,
        scale: Scale::one(),
        primary: true,
    }
}

#[test]
fn an_unchanged_layout_is_not_reported_as_a_change() {
    let one = DisplayInfo {
        id: "one".into(),
        name: "one".into(),
        x: 0,
        y: 0,
        width: 1920,
        height: 1080,
        scale: Scale::one(),
        primary: true,
    };
    let a = vec![one.clone()];
    let mut b = a.clone();
    assert!(!differ(&a, &b));

    b[0].x = 10;
    assert!(differ(&a, &b), "a move is a change");

    b[0].x = 0;
    b.push(one);
    assert!(differ(&a, &b), "a new monitor is a change");
}

#[test]
fn displays_are_listed_by_identity() {
    let found = vec![
        display("b", 1),
        display("a", 2),
        display("c", 3),
        display("a", 4),
    ];
    let places: Vec<(String, i32)> = ordered(found).into_iter().map(|d| (d.id, d.x)).collect();
    assert_eq!(
        places,
        [
            ("a".to_string(), 2),
            ("a".to_string(), 4),
            ("b".to_string(), 1),
            ("c".to_string(), 3)
        ]
    );
}

#[test]
fn a_monitor_reports_its_extent() {
    let built = monitor("\\\\.\\DISPLAY1".into(), -1920, 0, 0, 1080, Scale::one(), 1);
    assert_eq!((built.width, built.height), (1920, 1080));
    assert_eq!((built.x, built.y), (-1920, 0));
    assert!(built.primary);
    assert_eq!(built.id, built.name);
    let backwards = monitor("x".into(), 5, 5, 0, 0, Scale::one(), 2);
    assert_eq!((backwards.width, backwards.height), (0, 0));
    assert!(!backwards.primary);
}

#[test]
fn scales_compare_as_numbers() {
    assert_eq!(Scale::one().bits, 1.0f32.to_bits());
    let zero = Scale {
        bits: 0.0f32.to_bits(),
    };
    let minus_zero = Scale {
        bits: (-0.0f32).to_bits(),
    };
    let nan = Scale {
        bits: f32::NAN.to_bits(),
    };
    assert!(zero == minus_zero);
    assert!(nan != nan);
    assert!(zero != Scale::one());
}

#[test]
fn a_mac_display_is_known_by_its_number() {
    let main = mac_display(69, 69, -10, 20, 2560, 1440, Scale::one());
    assert_eq!(main.id, "display-69");
    assert_eq!(main.name, "Main display");
    assert!(main.primary);
    assert_eq!((main.x, main.y, main.width, main.height), (-10, 20, 2560, 1440));

    let other = mac_display(7, 69, 0, 0, 800, 600, Scale::one());
    assert_eq!(other.id, "display-7");
    assert_eq!(other.name, "Display 7");
    assert!(!other.primary);
}
