use buddhabrot::buddha::{ExactPoint, Trajectory, Waypoint};
use buddhabrot::collector::{paint_replay, Collector, Delivery};
use buddhabrot::ppm::Img;

fn traj(length: i64, pixels: &[(i32, i32)]) -> Trajectory {
    let p = ExactPoint { re_bits: 0, im_bits: 0 };
    Trajectory {
        init_c: p,
        waypoints: pixels.iter().map(|&(x, y)| Waypoint { img_x: x, img_y: y, point: p }).collect(),
        length,
    }
}

#[test]
fn timeout_keeps_exactly_what_arrived() {
    let mut c = Collector::new(8, 8, 0, 100, 100);
    for _ in 0..40 {
        assert!(c.on_event(Delivery::Arrived(traj(50, &[(1, 1), (2, 3)]))));
    }
    assert!(!c.on_event(Delivery::TimedOut));
    assert_eq!(c.received(), 40);
    assert_eq!(c.length_counts().get(&50), Some(&40));
    let imgs = c.into_images();
    assert_eq!(imgs.len(), 3);
    assert_eq!(imgs[0].px(1, 1), 40);
    assert_eq!(imgs[0].px(2, 3), 40);
    assert_eq!(imgs[0].maximum(), 40);
    assert!(imgs[1].pixels().iter().all(|&v| v == 0));
    assert!(imgs[2].pixels().iter().all(|&v| v == 0));
}

#[test]
fn collector_bins_each_trajectory() {
    let mut c = Collector::new(4, 2, 0, 100, 4);
    assert!(c.on_event(Delivery::Arrived(traj(50, &[(0, 0)]))));
    assert!(c.on_event(Delivery::Arrived(traj(5, &[(3, 1)]))));
    assert!(c.on_event(Delivery::Arrived(traj(0, &[(1, 0), (1, 0)]))));
    assert!(!c.on_event(Delivery::Arrived(traj(1, &[(2, 0)]))));
    assert!(c.is_complete());
    let imgs = c.into_images();
    assert_eq!(imgs[0].pixels(), &vec![1, 0, 0, 0, 0, 0, 0, 0]);
    assert_eq!(imgs[1].pixels(), &vec![0, 0, 0, 0, 0, 0, 0, 1]);
    // length 1 equals the green threshold, which belongs to blue
    assert_eq!(imgs[2].pixels(), &vec![0, 2, 1, 0, 0, 0, 0, 0]);
}

#[test]
fn replay_paints_every_channel_when_lengths_agree() {
    let (mut r, mut g, mut b) = (Img::new(2, 2), Img::new(2, 2), Img::new(2, 2));
    paint_replay(&mut r, &mut g, &mut b, &traj(9, &[(1, 1)]), 9, 9);
    assert_eq!((r.px(1, 1), g.px(1, 1), b.px(1, 1)), (1, 1, 1));
    paint_replay(&mut r, &mut g, &mut b, &traj(1000, &[(0, 1)]), 200, 1200);
    assert_eq!((r.px(0, 1), g.px(0, 1), b.px(0, 1)), (1, 0, 0));
}
