use puddle_core::diagnostic::{circle_lap, lap_fits, single_droplet};
use puddle_core::grid::{Droplet, DropletId, Location};
use puddle_core::pi::{failed, read_filled, GpioMode, GpioPin, PiError};

#[test]
fn pins_have_their_numbers() {
    assert_eq!(GpioPin::Blank.number(), 17);
    assert_eq!(GpioPin::LatchEnable.number(), 13);
    assert_eq!(GpioPin::Clock.number(), 15);
    assert_eq!(GpioPin::Data.number(), 16);
}

#[test]
fn modes_have_their_numbers() {
    assert_eq!(GpioMode::Input.number(), 0);
    assert_eq!(GpioMode::Output.number(), 1);
    assert_eq!(GpioMode::Alt0.number(), 4);
    assert_eq!(GpioMode::Alt1.number(), 5);
    assert_eq!(GpioMode::Alt2.number(), 6);
    assert_eq!(GpioMode::Alt3.number(), 7);
    assert_eq!(GpioMode::Alt4.number(), 3);
    assert_eq!(GpioMode::Alt5.number(), 2);
}

#[test]
fn negative_codes_are_failures() {
    assert!(failed(-1));
    assert!(failed(i32::MIN));
    assert!(!failed(0));
    assert!(!failed(7));
    let e = PiError::from_code(-83, "i2c write failed".to_string());
    assert_eq!(e.code(), -83);
    assert_eq!(e.description(), "i2c write failed");
}

#[test]
fn a_read_is_complete_when_every_byte_came() {
    assert!(read_filled(4, 4));
    assert!(read_filled(0, 0));
    assert!(!read_filled(3, 4));
    assert!(!read_filled(-1, 4));
    assert!(!read_filled(-1, usize::MAX));
}

#[test]
fn single_droplet_is_alone() {
    let (id, snapshot) = single_droplet(Location { y: 2, x: 3 }, Location { y: 1, x: 1 });
    assert_eq!(id, DropletId { id: 0, process_id: 0 });
    assert_eq!(
        snapshot.droplets,
        vec![Droplet {
            id,
            location: Location { y: 2, x: 3 },
            dimensions: Location { y: 1, x: 1 },
            destination: None,
            collision_group: 0
        }]
    );
    assert!(snapshot.commands_to_finalize.is_empty());
}

#[test]
fn circle_lap_goes_round() {
    let lap = circle_lap(Location { y: 5, x: 5 }, Location { y: 3, x: 2 });
    let places: Vec<(i32, i32)> = lap.iter().map(|l| (l.y, l.x)).collect();
    assert_eq!(
        places,
        vec![
            (5, 5),
            (6, 5),
            (6, 5),
            (6, 6),
            (6, 7),
            (6, 7),
            (5, 7),
            (5, 7),
            (5, 6),
            (5, 5),
        ]
    );
}

#[test]
fn circle_lap_of_the_usual_size() {
    let lap = circle_lap(Location { y: 0, x: 0 }, Location { y: 2, x: 2 });
    let places: Vec<(i32, i32)> = lap.iter().map(|l| (l.y, l.x)).collect();
    assert_eq!(places, vec![(0, 0), (1, 0), (1, 0), (1, 1), (1, 1), (0, 1), (0, 1), (0, 0)]);
}

#[test]
fn circle_lap_without_sides_is_empty() {
    assert!(circle_lap(Location { y: 0, x: 0 }, Location { y: 0, x: 0 }).is_empty());
    assert!(circle_lap(Location { y: 0, x: 0 }, Location { y: -3, x: i32::MIN }).is_empty());
    assert!(lap_fits(Location { y: i32::MAX, x: i32::MIN }, Location { y: -3, x: i32::MIN }));
}

#[test]
fn lap_fits_knows_the_limits() {
    assert!(lap_fits(Location { y: 0, x: 0 }, Location { y: 2, x: 2 }));
    assert!(lap_fits(Location { y: i32::MAX - 1, x: i32::MAX - 1 }, Location { y: 2, x: 2 }));
    assert!(!lap_fits(Location { y: i32::MAX, x: 0 }, Location { y: 2, x: 2 }));
    assert!(!lap_fits(Location { y: 0, x: i32::MAX }, Location { y: 2, x: 2 }));
    assert!(lap_fits(Location { y: i32::MAX, x: i32::MAX }, Location { y: 1, x: 1 }));
    // one side only: the droplet stands one step off the near side
    assert!(lap_fits(Location { y: 0, x: 0 }, Location { y: 2, x: 0 }));
    assert!(!lap_fits(Location { y: i32::MIN, x: 0 }, Location { y: 2, x: 0 }));
    let lap = circle_lap(Location { y: 0, x: 0 }, Location { y: 2, x: 0 });
    let places: Vec<(i32, i32)> = lap.iter().map(|l| (l.y, l.x)).collect();
    assert_eq!(places, vec![(-1, 0), (-1, 1), (0, 1), (0, 0)]);
}
