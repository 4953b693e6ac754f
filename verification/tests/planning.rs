use puddle_core::command::Command;
use puddle_core::grid::snapshot::{admits, is_valid, position};
use puddle_core::grid::{
    Droplet, DropletId, DropletInfo, Failure, Grid, GridView, Location, Rectangle, Snapshot,
    MINIMUM_SEPARATION,
};
use puddle_core::plan::apply::apply;
use puddle_core::plan::place::first_fit;
use puddle_core::plan::route::{advance, route, steps_remain, tick};
use puddle_core::plan::PlanError;
use puddle_core::process::{Process, ProcessIds, PuddleError};

fn at(y: i32, x: i32) -> Location {
    Location { y, x }
}

fn droplet(id: usize, location: Location, dimensions: Location, group: usize) -> Droplet {
    Droplet {
        id: DropletId { id, process_id: 0 },
        location,
        dimensions,
        destination: None,
        collision_group: group,
    }
}

fn started(height: usize, width: usize) -> (GridView, Process) {
    let mut gridview = GridView::new(Grid::rectangle(height, width));
    let mut ids = ProcessIds::new();
    let process = Process::new("test".to_string(), &mut ids, &mut gridview);
    (gridview, process)
}

fn assert_apart(gridview: &GridView) {
    let droplets = &gridview.snapshot().droplets;
    assert!(is_valid(droplets, gridview.grid()));
    for (i, a) in droplets.iter().enumerate() {
        for (j, b) in droplets.iter().enumerate() {
            if i != j {
                assert_ne!(a.id, b.id);
                assert_ne!(a.collision_group, b.collision_group);
                let gap = a.rectangle().collision_distance(&b.rectangle());
                assert!(gap >= 0);
                assert!(i64::from(gap) >= MINIMUM_SEPARATION);
            }
        }
    }
}

#[test]
fn grid_knows_its_cells() {
    let grid = Grid::rectangle(2, 3);
    assert!(grid.contains(at(0, 0)));
    assert!(grid.contains(at(1, 2)));
    assert!(!grid.contains(at(2, 0)));
    assert!(!grid.contains(at(0, 3)));
    assert!(!grid.contains(at(-1, 0)));
    assert!(!grid.contains(at(0, -1)));
}

#[test]
fn grid_with_holes_refuses_footprints_over_them() {
    let grid = Grid::new(vec![vec![true, true, true], vec![true, false, true], vec![true]]);
    assert!(grid.fits(&Rectangle::new((0, 0), (1, 3))));
    assert!(grid.fits(&Rectangle::new((0, 0), (2, 1))));
    assert!(!grid.fits(&Rectangle::new((0, 0), (2, 2))));
    assert!(grid.fits(&Rectangle::new((0, 0), (3, 1))));
    assert!(!grid.fits(&Rectangle::new((2, 0), (1, 2))));
    assert!(!grid.fits(&Rectangle::new((0, 0), (0, 1))));
    assert!(!grid.fits(&Rectangle::new((0, 0), (1, -1))));
    assert!(!grid.fits(&Rectangle::new((i32::MAX, i32::MAX), (2, 2))));
}

#[test]
fn snapshot_finds_inserts_and_removes() {
    let mut snapshot = Snapshot::new();
    let a = droplet(1, at(0, 0), at(1, 1), 0);
    let b = droplet(2, at(0, 2), at(1, 1), 1);
    assert_eq!(snapshot.insert(a), None);
    assert_eq!(snapshot.insert(b), None);
    assert!(snapshot.contains(a.id));
    assert_eq!(snapshot.get(b.id), Ok(b));
    let missing = DropletId { id: 9, process_id: 0 };
    assert!(!snapshot.contains(missing));
    assert_eq!(snapshot.get(missing), Err(PuddleError::NonExistentDropletId(9)));
    assert_eq!(snapshot.remove(missing), Err(PuddleError::NonExistentDropletId(9)));
    let moved = droplet(1, at(2, 0), at(1, 1), 0);
    assert_eq!(snapshot.insert(moved), Some(a));
    assert_eq!(snapshot.droplets, vec![moved, b]);
    assert_eq!(snapshot.remove(a.id), Ok(moved));
    assert_eq!(snapshot.droplets, vec![b]);
    assert_eq!(position(&snapshot.droplets, b.id), Some(0));
}

#[test]
fn snapshot_validity_needs_distance_between_groups() {
    let grid = Grid::rectangle(4, 4);
    let mut snapshot = Snapshot::new();
    snapshot.insert(droplet(1, at(0, 0), at(1, 1), 0));
    snapshot.insert(droplet(2, at(0, 2), at(1, 1), 1));
    assert!(snapshot.is_valid(&grid));
    // touching at a corner, different groups
    snapshot.insert(droplet(3, at(1, 1), at(1, 1), 2));
    assert!(!snapshot.is_valid(&grid));
    // touching is fine within one group
    snapshot.insert(droplet(3, at(1, 1), at(1, 1), 0));
    assert!(!snapshot.is_valid(&grid));
    snapshot.insert(droplet(2, at(0, 2), at(1, 1), 0));
    assert!(snapshot.is_valid(&grid));
    // off the grid
    snapshot.insert(droplet(4, at(3, 3), at(2, 1), 4));
    assert!(!snapshot.is_valid(&grid));
}

#[test]
fn snapshot_validity_needs_different_names() {
    let grid = Grid::rectangle(4, 4);
    let snapshot = Snapshot {
        droplets: vec![droplet(1, at(0, 0), at(1, 1), 0), droplet(1, at(3, 3), at(1, 1), 1)],
        commands_to_finalize: vec![],
    };
    assert!(!snapshot.is_valid(&grid));
}

#[test]
fn droplets_of_one_group_may_touch() {
    let a = droplet(1, at(0, 0), at(1, 1), 0);
    let near = droplet(2, at(0, 1), at(1, 1), 1);
    let same = droplet(2, at(0, 1), at(1, 1), 0);
    let far = droplet(2, at(0, 2), at(1, 1), 1);
    assert!(!a.may_neighbour(&near));
    assert!(a.may_neighbour(&same));
    assert!(a.may_neighbour(&far));
    assert_eq!(a.may_neighbour(&near), near.may_neighbour(&a));
}

#[test]
fn admits_checks_the_grid_and_the_neighbours() {
    let grid = Grid::rectangle(3, 5);
    let others = vec![droplet(1, at(0, 0), at(1, 1), 0)];
    assert!(admits(&others, &grid, &droplet(2, at(0, 2), at(1, 1), 1)));
    assert!(!admits(&others, &grid, &droplet(2, at(0, 1), at(1, 1), 1)));
    assert!(!admits(&others, &grid, &droplet(2, at(2, 4), at(1, 2), 1)));
}

#[test]
fn first_fit_reads_row_by_row() {
    let grid = Grid::rectangle(3, 3);
    let none: Vec<Droplet> = vec![];
    let pattern = droplet(7, at(0, 0), at(1, 1), 5);
    assert_eq!(first_fit(&none, &grid, &pattern), Some(at(0, 0)));
    let one = vec![droplet(1, at(0, 0), at(1, 1), 0)];
    assert_eq!(first_fit(&one, &grid, &pattern), Some(at(0, 2)));
    let two = vec![droplet(1, at(0, 0), at(1, 1), 0), droplet(2, at(0, 2), at(1, 1), 1)];
    assert_eq!(first_fit(&two, &grid, &pattern), Some(at(2, 0)));
    let wide = droplet(7, at(0, 0), at(1, 4), 5);
    assert_eq!(first_fit(&none, &grid, &wide), None);
    let middle = vec![droplet(1, at(1, 1), at(1, 1), 0)];
    assert_eq!(first_fit(&middle, &grid, &pattern), None);
}

#[test]
fn advance_goes_along_the_rows_first() {
    let grid = Grid::rectangle(4, 4);
    let mut moving = droplet(1, at(0, 0), at(1, 1), 0);
    moving.destination = Some(at(2, 2));
    let mut droplets = vec![moving];
    assert!(advance(&mut droplets, &grid, 0));
    assert_eq!(droplets[0].location, at(1, 0));
    assert!(tick(&mut droplets, &grid));
    assert_eq!(droplets[0].location, at(2, 0));
    assert!(tick(&mut droplets, &grid));
    assert_eq!(droplets[0].location, at(2, 1));
    assert!(steps_remain(&droplets));
    assert!(tick(&mut droplets, &grid));
    assert_eq!(droplets[0].location, at(2, 2));
    assert!(!steps_remain(&droplets));
    assert!(!tick(&mut droplets, &grid));
}

#[test]
fn advance_goes_along_the_columns_where_the_row_is_taken() {
    let grid = Grid::rectangle(4, 4);
    let mut moving = droplet(1, at(0, 0), at(1, 1), 0);
    moving.destination = Some(at(3, 3));
    let blocker = droplet(2, at(2, 0), at(1, 1), 1);
    let mut droplets = vec![moving, blocker];
    assert!(advance(&mut droplets, &grid, 0));
    assert_eq!(droplets[0].location, at(0, 1));
    assert!(!advance(&mut droplets, &grid, 1));
}

#[test]
fn route_takes_every_droplet_to_its_place() {
    let grid = Grid::rectangle(5, 5);
    let mut a = droplet(1, at(0, 0), at(1, 1), 0);
    a.destination = Some(at(4, 0));
    let mut b = droplet(2, at(0, 4), at(1, 1), 1);
    b.destination = Some(at(4, 4));
    let arrived = route(vec![a, b], &grid).unwrap();
    assert_eq!(arrived[0].location, at(4, 0));
    assert_eq!(arrived[1].location, at(4, 4));
    assert_eq!(arrived[0].destination, Some(at(4, 0)));
}

#[test]
fn route_fails_where_no_droplet_can_step() {
    let grid = Grid::rectangle(1, 5);
    let mut a = droplet(1, at(0, 0), at(1, 1), 0);
    a.destination = Some(at(0, 4));
    let b = droplet(2, at(0, 4), at(1, 1), 1);
    assert_eq!(route(vec![a, b], &grid), Err(PlanError::Route));
    let mut off = droplet(1, at(0, 0), at(1, 1), 0);
    off.destination = Some(at(0, 5));
    assert_eq!(route(vec![off], &grid), Err(PlanError::Route));
}

#[test]
fn create_places_a_unit_droplet() {
    let (mut gridview, mut process) = started(5, 5);
    let id = process.create(&mut gridview, Some(at(1, 1)), None).unwrap();
    assert_eq!(id, DropletId { id: 0, process_id: 0 });
    assert_eq!(
        gridview.snapshot().droplets,
        vec![Droplet {
            id,
            location: at(1, 1),
            dimensions: at(1, 1),
            destination: None,
            collision_group: 0
        }]
    );
    assert_eq!(gridview.snapshot().commands_to_finalize.len(), 1);
    assert_apart(&gridview);
}

#[test]
fn create_without_a_place_takes_the_first_with_room() {
    let (mut gridview, mut process) = started(3, 3);
    let a = process.create(&mut gridview, None, None).unwrap();
    let b = process.create(&mut gridview, None, Some(at(1, 1))).unwrap();
    let c = process.input(&mut gridview, "water".to_string(), at(1, 1)).unwrap();
    assert_eq!(gridview.snapshot().get(a).unwrap().location, at(0, 0));
    assert_eq!(gridview.snapshot().get(b).unwrap().location, at(0, 2));
    assert_eq!(gridview.snapshot().get(c).unwrap().location, at(2, 0));
    assert_eq!(gridview.snapshot().get(c).unwrap().collision_group, 2);
    assert_apart(&gridview);
}

#[test]
fn create_refuses_extents_without_area() {
    let (mut gridview, mut process) = started(3, 3);
    assert_eq!(
        process.create(&mut gridview, None, Some(at(0, 1))),
        Err(PuddleError::InvalidDimensions(at(0, 1)))
    );
    assert_eq!(
        process.input(&mut gridview, "water".to_string(), at(1, -1)),
        Err(PuddleError::InvalidDimensions(at(1, -1)))
    );
    assert!(gridview.snapshot().droplets.is_empty());
    // the names are used up all the same
    assert_eq!(process.new_droplet_id(), DropletId { id: 2, process_id: 0 });
}

#[test]
fn create_fails_where_there_is_no_room() {
    let (mut gridview, mut process) = started(3, 3);
    process.create(&mut gridview, Some(at(1, 1)), None).unwrap();
    assert_eq!(
        process.create(&mut gridview, Some(at(2, 2)), None),
        Err(PuddleError::PlanError(PlanError::Placement))
    );
    assert_eq!(
        process.create(&mut gridview, None, None),
        Err(PuddleError::PlanError(PlanError::Placement))
    );
    assert_eq!(
        process.create(&mut gridview, Some(at(3, 3)), None),
        Err(PuddleError::PlanError(PlanError::Placement))
    );
    assert_eq!(gridview.snapshot().droplets.len(), 1);
    assert_apart(&gridview);
}

#[test]
fn move_takes_the_droplet_there_under_a_new_name() {
    let (mut gridview, mut process) = started(5, 5);
    let a = process.create(&mut gridview, Some(at(0, 0)), None).unwrap();
    let b = process.move_droplet(&mut gridview, a, at(3, 3)).unwrap();
    assert_eq!(b, DropletId { id: 1, process_id: 0 });
    assert!(!gridview.snapshot().contains(a));
    assert_eq!(
        gridview.snapshot().get(b),
        Ok(Droplet {
            id: b,
            location: at(3, 3),
            dimensions: at(1, 1),
            destination: None,
            collision_group: 0
        })
    );
    assert_apart(&gridview);
}

#[test]
fn move_to_a_taken_place_fails_and_changes_nothing() {
    let (mut gridview, mut process) = started(1, 5);
    let a = process.create(&mut gridview, Some(at(0, 0)), None).unwrap();
    let b = process.create(&mut gridview, Some(at(0, 4)), None).unwrap();
    let before = gridview.snapshot().droplets.clone();
    assert_eq!(
        process.move_droplet(&mut gridview, a, at(0, 4)),
        Err(PuddleError::PlanError(PlanError::Route))
    );
    assert_eq!(gridview.snapshot().droplets, before);
    assert_eq!(
        process.move_droplet(&mut gridview, a, at(0, 3)),
        Err(PuddleError::PlanError(PlanError::Route))
    );
    assert_eq!(gridview.snapshot().droplets, before);
    assert_eq!(gridview.snapshot().commands_to_finalize.len(), 2);
    assert!(gridview.snapshot().contains(a));
    assert!(gridview.snapshot().contains(b));
    assert_apart(&gridview);
}

#[test]
fn move_of_an_unknown_droplet_is_refused() {
    let (mut gridview, mut process) = started(3, 3);
    let ghost = DropletId { id: 41, process_id: 7 };
    assert_eq!(
        process.move_droplet(&mut gridview, ghost, at(0, 0)),
        Err(PuddleError::NonExistentDropletId(41))
    );
    assert_eq!(
        process.output(&mut gridview, "waste".to_string(), ghost),
        Err(PuddleError::NonExistentDropletId(41))
    );
    assert_eq!(process.heat(&mut gridview, ghost, 1, 0), Err(PuddleError::NonExistentDropletId(41)));
    assert_eq!(process.split(&mut gridview, ghost), Err(PuddleError::NonExistentDropletId(41)));
    assert_eq!(
        process.mix(&mut gridview, ghost, ghost),
        Err(PuddleError::NonExistentDropletId(41))
    );
}

#[test]
fn output_takes_the_droplet_off_the_grid() {
    let (mut gridview, mut process) = started(3, 3);
    let a = process.create(&mut gridview, None, None).unwrap();
    assert_eq!(process.output(&mut gridview, "waste".to_string(), a), Ok(()));
    assert!(gridview.snapshot().droplets.is_empty());
    assert_eq!(
        process.output(&mut gridview, "waste".to_string(), a),
        Err(PuddleError::NonExistentDropletId(0))
    );
}

#[test]
fn combine_into_makes_one_droplet_where_the_first_lies() {
    let (mut gridview, mut process) = started(2, 6);
    let a = process.create(&mut gridview, Some(at(0, 0)), None).unwrap();
    let b = process.create(&mut gridview, Some(at(1, 4)), Some(at(1, 2))).unwrap();
    let c = process.combine_into(&mut gridview, a, b).unwrap();
    assert_eq!(
        gridview.snapshot().droplets,
        vec![Droplet {
            id: c,
            location: at(0, 0),
            dimensions: at(1, 3),
            destination: None,
            collision_group: 0
        }]
    );
    assert_apart(&gridview);
}

#[test]
fn combine_takes_the_higher_extent() {
    let (mut gridview, mut process) = started(4, 8);
    let a = process.create(&mut gridview, Some(at(0, 0)), Some(at(1, 2))).unwrap();
    let b = process.create(&mut gridview, Some(at(0, 4)), Some(at(3, 1))).unwrap();
    let c = process.combine_into(&mut gridview, b, a).unwrap();
    let merged = gridview.snapshot().get(c).unwrap();
    assert_eq!(merged.location, at(0, 4));
    assert_eq!(merged.dimensions, at(3, 3));
    assert_eq!(merged.collision_group, 1);
    assert_eq!(gridview.snapshot().droplets.len(), 1);
}

#[test]
fn combine_fails_where_the_second_cannot_come() {
    let (mut gridview, mut process) = started(1, 7);
    let a = process.create(&mut gridview, Some(at(0, 0)), None).unwrap();
    let _wall = process.create(&mut gridview, Some(at(0, 3)), None).unwrap();
    let b = process.create(&mut gridview, Some(at(0, 6)), None).unwrap();
    let before = gridview.snapshot().droplets.clone();
    assert_eq!(
        process.combine_into(&mut gridview, a, b),
        Err(PuddleError::PlanError(PlanError::Route))
    );
    assert_eq!(gridview.snapshot().droplets, before);
    assert_eq!(
        process.combine_into(&mut gridview, a, a),
        Err(PuddleError::PlanError(PlanError::DuplicateDroplet(a)))
    );
    assert_apart(&gridview);
}

#[test]
fn mix_combines_and_stirs() {
    let (mut gridview, mut process) = started(3, 6);
    let a = process.create(&mut gridview, Some(at(1, 0)), None).unwrap();
    let b = process.create(&mut gridview, Some(at(1, 4)), None).unwrap();
    let mixed = process.mix(&mut gridview, a, b).unwrap();
    assert_eq!(mixed, DropletId { id: 3, process_id: 0 });
    assert_eq!(
        gridview.snapshot().droplets,
        vec![Droplet {
            id: mixed,
            location: at(1, 0),
            dimensions: at(1, 2),
            destination: None,
            collision_group: 0
        }]
    );
    assert_eq!(gridview.snapshot().commands_to_finalize.len(), 4);
}

#[test]
fn split_makes_two_droplets_beside_the_first() {
    let (mut gridview, mut process) = started(5, 5);
    let a = process.create(&mut gridview, Some(at(2, 2)), None).unwrap();
    let (left, right) = process.split(&mut gridview, a).unwrap();
    assert_eq!(
        gridview.snapshot().droplets,
        vec![
            Droplet {
                id: left,
                location: at(2, 1),
                dimensions: at(1, 1),
                destination: None,
                collision_group: 1
            },
            Droplet {
                id: right,
                location: at(2, 3),
                dimensions: at(1, 1),
                destination: None,
                collision_group: 2
            },
        ]
    );
    assert_apart(&gridview);
}

#[test]
fn split_fails_at_the_edge() {
    let (mut gridview, mut process) = started(3, 3);
    let a = process.create(&mut gridview, Some(at(0, 0)), None).unwrap();
    let before = gridview.snapshot().droplets.clone();
    assert_eq!(process.split(&mut gridview, a), Err(PuddleError::PlanError(PlanError::Placement)));
    assert_eq!(gridview.snapshot().droplets, before);
}

#[test]
fn heat_and_agitate_keep_the_footprint() {
    let (mut gridview, mut process) = started(3, 3);
    let a = process.create(&mut gridview, Some(at(1, 1)), None).unwrap();
    let hot = process.heat(&mut gridview, a, 2, 500_000_000).unwrap();
    assert!(matches!(
        gridview.snapshot().commands_to_finalize.last(),
        Some(Command::Heat { seconds: 2, nanoseconds: 500_000_000, .. })
    ));
    assert_eq!(gridview.snapshot().get(hot).unwrap().location, at(1, 1));
    assert!(!gridview.snapshot().contains(a));
    let stirred = DropletId { id: 77, process_id: 0 };
    assert_eq!(gridview.plan(0, Command::agitate(hot, stirred).unwrap()), Ok(()));
    assert_eq!(
        gridview.snapshot().droplets,
        vec![Droplet {
            id: stirred,
            location: at(1, 1),
            dimensions: at(1, 1),
            destination: None,
            collision_group: 0
        }]
    );
}

#[test]
fn a_name_that_is_taken_is_refused() {
    let (mut gridview, mut process) = started(5, 5);
    let a = process.create(&mut gridview, Some(at(0, 0)), None).unwrap();
    let b = process.create(&mut gridview, Some(at(4, 4)), None).unwrap();
    let taken = Err(PuddleError::PlanError(PlanError::DuplicateDroplet(b)));
    assert_eq!(gridview.plan(0, Command::create(None, None, b).unwrap()), taken);
    assert_eq!(gridview.plan(0, Command::relocate(a, at(2, 2), b).unwrap()), taken);
    assert_eq!(gridview.plan(0, Command::heat(a, b, 0, 0).unwrap()), taken);
    assert_eq!(gridview.plan(0, Command::split(a, b, b).unwrap()), taken);
    assert_eq!(gridview.plan(0, Command::split(a, a, b).unwrap()), taken);
    // the name of a droplet that the command uses up is free
    assert_eq!(gridview.plan(0, Command::relocate(a, at(2, 2), a).unwrap()), Ok(()));
    assert_eq!(gridview.snapshot().get(a).unwrap().location, at(2, 2));
    assert_apart(&gridview);
}

#[test]
fn commands_name_what_they_use_and_make() {
    let a = DropletId { id: 1, process_id: 0 };
    let b = DropletId { id: 2, process_id: 0 };
    let c = DropletId { id: 3, process_id: 0 };
    let combine = Command::combine(a, b, c).unwrap();
    assert_eq!(combine.inputs(), vec![a, b]);
    assert_eq!(combine.outputs(), vec![c]);
    let split = Command::split(a, b, c).unwrap();
    assert_eq!(split.inputs(), vec![a]);
    assert_eq!(split.outputs(), vec![b, c]);
    let create = Command::create(None, None, a).unwrap();
    assert_eq!(create.inputs(), vec![]);
    assert_eq!(create.outputs(), vec![a]);
    let output = Command::output("waste".to_string(), a).unwrap();
    assert_eq!(output.inputs(), vec![a]);
    assert_eq!(output.outputs(), vec![]);
    assert_eq!(Command::flush(4).inputs(), vec![]);
    assert_eq!(Command::flush(4).outputs(), vec![]);
    assert_eq!(Command::relocate(a, at(0, 0), b).unwrap().outputs(), vec![b]);
    assert_eq!(Command::agitate(a, b).unwrap().inputs(), vec![a]);
    assert_eq!(Command::heat(a, b, 0, 0).unwrap().outputs(), vec![b]);
    assert_eq!(Command::input("water".to_string(), at(1, 1), a).unwrap().outputs(), vec![a]);
}

#[test]
fn flush_reports_the_droplets_of_the_process() {
    let mut gridview = GridView::new(Grid::rectangle(5, 5));
    let mut ids = ProcessIds::new();
    let mut first = Process::new("first".to_string(), &mut ids, &mut gridview);
    let mut second = Process::new("second".to_string(), &mut ids, &mut gridview);
    let a = first.create(&mut gridview, Some(at(0, 0)), None).unwrap();
    let b = second.create(&mut gridview, Some(at(2, 2)), Some(at(1, 2))).unwrap();
    let c = first.create(&mut gridview, Some(at(4, 4)), None).unwrap();
    assert_eq!(gridview.snapshot().commands_to_finalize.len(), 3);
    assert_eq!(
        first.flush(&mut gridview),
        Ok(vec![
            DropletInfo { id: a, location: at(0, 0), dimensions: at(1, 1) },
            DropletInfo { id: c, location: at(4, 4), dimensions: at(1, 1) },
        ])
    );
    assert!(gridview.snapshot().commands_to_finalize.is_empty());
    assert_eq!(
        second.flush(&mut gridview),
        Ok(vec![DropletInfo { id: b, location: at(2, 2), dimensions: at(1, 2) }])
    );
    assert!(gridview.snapshot().commands_to_finalize.is_empty());
}

#[test]
fn flush_reports_a_failure_once() {
    let mut gridview = GridView::new(Grid::rectangle(1, 5));
    let mut ids = ProcessIds::new();
    let mut first = Process::new("first".to_string(), &mut ids, &mut gridview);
    let second = Process::new("second".to_string(), &mut ids, &mut gridview);
    let a = first.create(&mut gridview, Some(at(0, 0)), None).unwrap();
    assert!(first.move_droplet(&mut gridview, a, at(0, 7)).is_err());
    assert!(first.split(&mut gridview, a).is_err());
    assert_eq!(second.flush(&mut gridview), Ok(vec![]));
    assert_eq!(first.flush(&mut gridview), Err(PuddleError::PlanError(PlanError::Route)));
    assert_eq!(first.flush(&mut gridview), Err(PuddleError::PlanError(PlanError::Placement)));
    assert_eq!(
        first.flush(&mut gridview),
        Ok(vec![DropletInfo { id: a, location: at(0, 0), dimensions: at(1, 1) }])
    );
}

#[test]
fn a_closed_process_is_unknown() {
    let mut gridview = GridView::new(Grid::rectangle(5, 5));
    let mut ids = ProcessIds::new();
    let mut first = Process::new("first".to_string(), &mut ids, &mut gridview);
    let mut second = Process::new("second".to_string(), &mut ids, &mut gridview);
    assert_eq!(first.id(), 0);
    assert_eq!(second.id(), 1);
    assert_eq!(first.name(), "first");
    let a = first.create(&mut gridview, Some(at(0, 0)), None).unwrap();
    let b = second.create(&mut gridview, Some(at(2, 2)), None).unwrap();
    first.close(&mut gridview);
    assert!(!gridview.is_active(0));
    assert!(gridview.is_active(1));
    assert!(!gridview.snapshot().contains(a));
    assert!(gridview.snapshot().contains(b));
    assert_eq!(
        first.create(&mut gridview, None, None),
        Err(PuddleError::NonExistentProcess(0))
    );
    assert_eq!(first.flush(&mut gridview), Err(PuddleError::NonExistentProcess(0)));
    assert_eq!(
        gridview.plan(9, Command::flush(9)),
        Err(PuddleError::NonExistentProcess(9))
    );
    assert_eq!(gridview.flush(9), Err(PuddleError::NonExistentProcess(9)));
    // closing again changes nothing
    first.close(&mut gridview);
    assert_eq!(gridview.snapshot().droplets.len(), 1);
    let third = Process::new("third".to_string(), &mut ids, &mut gridview);
    assert_eq!(third.id(), 2);
    assert!(ids.has_room());
}

#[test]
fn processes_never_share_a_droplet_name() {
    let mut gridview = GridView::new(Grid::rectangle(1, 1));
    let mut ids = ProcessIds::new();
    let mut first = Process::new("first".to_string(), &mut ids, &mut gridview);
    let mut second = Process::new("second".to_string(), &mut ids, &mut gridview);
    let mut seen: Vec<DropletId> = vec![];
    for _ in 0..200 {
        for id in [first.new_droplet_id(), second.new_droplet_id()] {
            assert!(!seen.contains(&id));
            seen.push(id);
        }
    }
    assert!(first.can_name(usize::MAX - 200));
    assert!(!first.can_name(usize::MAX - 199));
}

#[test]
fn failures_are_kept_by_process() {
    let failure = Failure { process_id: 3, error: PlanError::Route };
    assert_eq!(failure, Failure { process_id: 3, error: PlanError::Route });
    assert_ne!(failure, Failure { process_id: 4, error: PlanError::Route });
}

#[test]
fn droplets_stay_apart_whatever_is_asked() {
    let (mut gridview, mut process) = started(9, 9);
    let mut live: Vec<DropletId> = vec![];
    let mut seed: u64 = 0x2545_f491_4f6c_dd1d;
    for _ in 0..400 {
        seed ^= seed << 13;
        seed ^= seed >> 7;
        seed ^= seed << 17;
        let pick = (seed >> 8) as usize;
        let y = ((seed >> 20) % 9) as i32;
        let x = ((seed >> 30) % 9) as i32;
        let before = gridview.snapshot().droplets.clone();
        let some = if live.is_empty() { None } else { Some(live[pick % live.len()]) };
        let other = if live.is_empty() { None } else { Some(live[(pick / 7) % live.len()]) };
        let done = match (pick % 6, some, other) {
            (0, _, _) | (_, None, _) => {
                let extents = at(1 + (pick % 2) as i32, 1 + ((pick / 2) % 2) as i32);
                process.create(&mut gridview, Some(at(y, x)), Some(extents)).map(|id| {
                    live.push(id);
                })
            }
            (1, _, _) => process.create(&mut gridview, None, None).map(|id| {
                live.push(id);
            }),
            (2, Some(d), _) => process.move_droplet(&mut gridview, d, at(y, x)).map(|id| {
                live.retain(|l| *l != d);
                live.push(id);
            }),
            (3, Some(d), _) => process.split(&mut gridview, d).map(|(l, r)| {
                live.retain(|o| *o != d);
                live.push(l);
                live.push(r);
            }),
            (4, Some(d), Some(e)) => process.mix(&mut gridview, d, e).map(|id| {
                live.retain(|l| *l != d && *l != e);
                live.push(id);
            }),
            (_, Some(d), _) => process.output(&mut gridview, "waste".to_string(), d).map(|_| {
                live.retain(|l| *l != d);
            }),
        };
        if done.is_err() {
            assert_eq!(gridview.snapshot().droplets, before);
        }
        assert_apart(&gridview);
        assert_eq!(gridview.snapshot().droplets.len(), live.len());
    }
    let told = process.flush(&mut gridview);
    assert!(gridview.snapshot().commands_to_finalize.is_empty());
    if let Ok(infos) = told {
        assert_eq!(infos.len(), live.len());
    }
}

#[test]
fn no_droplet_is_made_without_a_collision_group() {
    let grid = Grid::rectangle(5, 5);
    let a = DropletId { id: 1, process_id: 0 };
    let b = DropletId { id: 2, process_id: 0 };
    let c = DropletId { id: 3, process_id: 0 };
    let exhausted = Err(PuddleError::PlanError(PlanError::Exhausted));
    let create = Command::create(None, None, a).unwrap();
    assert_eq!(apply(vec![], &grid, usize::MAX, &create), exhausted);
    let made = apply(vec![], &grid, usize::MAX - 1, &create).unwrap();
    assert_eq!(made.1, usize::MAX);
    assert_eq!(made.0, vec![droplet(1, at(0, 0), at(1, 1), usize::MAX - 1)]);
    let one = vec![droplet(1, at(2, 2), at(1, 1), 0)];
    let split = Command::split(a, b, c).unwrap();
    assert_eq!(apply(one.clone(), &grid, usize::MAX - 1, &split), exhausted);
    let halves = apply(one, &grid, usize::MAX - 2, &split).unwrap();
    assert_eq!(halves.1, usize::MAX);
    assert_eq!(halves.0.len(), 2);
}

#[test]
fn processes_of_two_grids_have_different_names() {
    let mut ids = ProcessIds::new();
    let mut here = GridView::new(Grid::rectangle(3, 3));
    let mut there = GridView::new(Grid::rectangle(3, 3));
    let mut first = Process::new("first".to_string(), &mut ids, &mut here);
    let mut second = Process::new("second".to_string(), &mut ids, &mut there);
    let mut third = Process::new("third".to_string(), &mut ids, &mut here);
    assert_eq!(first.id(), 0);
    assert_eq!(second.id(), 1);
    assert_eq!(third.id(), 2);
    assert!(here.is_active(0) && !here.is_active(1) && here.is_active(2));
    assert!(!there.is_active(0) && there.is_active(1) && !there.is_active(2));
    let a = first.create(&mut here, Some(at(0, 0)), None).unwrap();
    let b = second.create(&mut there, Some(at(0, 0)), None).unwrap();
    let c = third.create(&mut here, Some(at(2, 2)), None).unwrap();
    assert_eq!(a, DropletId { id: 0, process_id: 0 });
    assert_eq!(b, DropletId { id: 0, process_id: 1 });
    assert_eq!(c, DropletId { id: 0, process_id: 2 });
    let mut seen: Vec<DropletId> = vec![a, b, c];
    for _ in 0..100 {
        for id in [first.new_droplet_id(), second.new_droplet_id(), third.new_droplet_id()] {
            assert!(!seen.contains(&id));
            seen.push(id);
        }
    }
}

#[test]
fn the_source_of_names_counts() {
    let mut ids = ProcessIds::new();
    assert!(ids.has_room());
    assert_eq!(ids.fresh(), 0);
    assert_eq!(ids.fresh(), 1);
    assert_eq!(ids.fresh(), 2);
    assert!(ids.has_room());
}

#[test]
fn a_name_is_put_to_work_once() {
    let mut gridview = GridView::new(Grid::rectangle(2, 2));
    assert!(gridview.register(5));
    assert!(!gridview.register(5));
    assert!(gridview.register(3));
    assert!(gridview.is_active(5));
    assert!(gridview.is_active(3));
    assert!(!gridview.is_active(4));
    gridview.close(5);
    assert!(!gridview.is_active(5));
    assert!(gridview.register(5));
}

#[test]
fn electrodes_are_on_under_droplets() {
    let grid = Grid::new(vec![vec![true, true, true], vec![true, false, true], vec![true]]);
    let mut snapshot = Snapshot::new();
    assert_eq!(
        snapshot.activation(&grid),
        vec![vec![false, false, false], vec![false, false, false], vec![false]]
    );
    snapshot.insert(droplet(1, at(0, 1), at(2, 2), 0));
    assert_eq!(
        snapshot.activation(&grid),
        vec![vec![false, true, true], vec![false, false, true], vec![false]]
    );
    snapshot.insert(droplet(2, at(2, 0), at(1, 1), 1));
    snapshot.insert(droplet(3, at(-1, -1), at(2, 2), 2));
    assert_eq!(
        snapshot.activation(&grid),
        vec![vec![true, true, true], vec![false, false, true], vec![true]]
    );
}

#[test]
fn a_droplet_of_another_process_does_not_exist() {
    let mut ids = ProcessIds::new();
    let mut gridview = GridView::new(Grid::rectangle(5, 5));
    let mut first = Process::new("first".to_string(), &mut ids, &mut gridview);
    let mut second = Process::new("second".to_string(), &mut ids, &mut gridview);
    let a = first.create(&mut gridview, Some(at(0, 0)), None).unwrap();
    let b = second.create(&mut gridview, Some(at(4, 4)), None).unwrap();
    let before = gridview.snapshot().droplets.clone();
    let unknown = Err(PuddleError::NonExistentDropletId(a.id));
    assert_eq!(second.move_droplet(&mut gridview, a, at(2, 2)), unknown);
    assert_eq!(second.heat(&mut gridview, a, 1, 0), unknown);
    assert_eq!(second.combine_into(&mut gridview, b, a), unknown);
    assert_eq!(second.mix(&mut gridview, a, b), unknown);
    assert_eq!(
        second.split(&mut gridview, a),
        Err(PuddleError::NonExistentDropletId(a.id))
    );
    assert_eq!(
        second.output(&mut gridview, "waste".to_string(), a),
        Err(PuddleError::NonExistentDropletId(a.id))
    );
    assert_eq!(gridview.snapshot().droplets, before);
    // nothing of it is kept for a flush
    assert_eq!(second.flush(&mut gridview).map(|infos| infos.len()), Ok(1));
    assert!(first.move_droplet(&mut gridview, a, at(2, 2)).is_ok());
}
