//! Watching linked picture files.

use mn_app::file_object_watch::{
    Answer, Debouncer, INFINITE, Link, Plan, Turn, Waited, Watcher, any_linked, basename_set,
    notified_names, sync,
};

/// A link by its path.
fn mk(s: &str) -> Link {
    let (dir, name) = s.rsplit_once('/').unwrap();
    Link { dir: dir.to_string(), name: Some(name.to_string()) }
}

const MS: u64 = 1_000_000;

#[test]
fn the_plan_dedups_dirs_and_lowercases_names() {
    let links = vec![mk("C:/art/bg.png"), mk("C:/art/ref.png"), mk("D:/refs/bg.PNG")];
    let p = Plan::of(&links);
    assert_eq!(p.dirs, ["C:/art", "D:/refs"]);
    assert_eq!(p.names, ["bg.png", "ref.png"]);
    // Truncation at 63 dirs, deterministically: sorted first.
    let many: Vec<Link> = (0..100).map(|i| mk(&format!("D:/d{i}/x.png"))).collect();
    assert_eq!(Plan::of(&many).dirs.len(), 63);
}

#[test]
fn the_debouncer_fires_once_per_burst_and_rearms() {
    let t0 = 5_000 * MS;
    let mut d = Debouncer::new();
    assert_eq!(d.wait_ms(t0), INFINITE, "idle waits forever");

    d.event(t0);
    d.event(t0 + 120 * MS); // the burst's tail
    assert!(!d.settled(t0 + 300 * MS), "still bursting");
    assert!(d.settled(t0 + 600 * MS), "quiet long enough");
    assert!(!d.settled(t0 + 900 * MS), "fires exactly once");

    d.event(t0 + 1000 * MS);
    assert_eq!(d.wait_ms(t0 + 1100 * MS), 300, "the remaining quiet window, as a wait timeout");
    assert!(d.settled(t0 + 1500 * MS), "the next burst wakes again");
}

#[test]
fn notify_buffers_parse_to_names() {
    let mut b: Vec<u8> = Vec::new();
    let entry = |action: u32, name: &str, b: &mut Vec<u8>| {
        let units: Vec<u16> = name.encode_utf16().collect();
        let head = 12 + units.len() * 2;
        let pad = (4 - head % 4) % 4; // entries stride on u32
        b.extend_from_slice(&((head + pad) as u32).to_ne_bytes());
        b.extend_from_slice(&action.to_ne_bytes());
        b.extend_from_slice(&((units.len() * 2) as u32).to_ne_bytes());
        for u in units {
            b.extend_from_slice(&u.to_ne_bytes());
        }
        b.extend(std::iter::repeat(0u8).take(pad));
    };
    entry(3, "bg.png", &mut b); // modified
    entry(5, "bg.png", &mut b); // renamed, the new name
    let names = notified_names(&b);
    assert_eq!(names.len(), 2);
    assert_eq!(names[0].1, "bg.png");
    assert_eq!(names[1], (5, "bg.png".to_owned()));
    // A torn tail is dropped, not read past.
    let mut torn = b.clone();
    torn.truncate(torn.len() - 3);
    assert_eq!(notified_names(&torn).len(), 1);
}

#[test]
fn only_linked_names_match() {
    let names = basename_set(&[mk("C:/art/bg.png")]);
    assert!(any_linked(&[(3, "bg.png".into())], &names));
    assert!(any_linked(&[(5, "BG.PNG".into())], &names), "case-insensitive");
    assert!(any_linked(&[(2, "bg.png".into())], &names), "a removal is a change");
    assert!(!any_linked(&[(4, "bg.png".into()), (5, "tmp4a7f".into())], &names));
    assert!(!any_linked(&[(3, "tmp4a7f".into())], &names), "temps never match");
}

#[test]
fn names_beyond_the_basic_plane_come_through() {
    let units: Vec<u16> = "背景😀.png".encode_utf16().collect();
    let mut b: Vec<u8> = Vec::new();
    b.extend_from_slice(&0u32.to_ne_bytes());
    b.extend_from_slice(&3u32.to_ne_bytes());
    b.extend_from_slice(&((units.len() * 2) as u32).to_ne_bytes());
    for u in units {
        b.extend_from_slice(&u.to_ne_bytes());
    }
    assert_eq!(notified_names(&b), [(3, "背景😀.png".to_string())]);
}

/// The loop of the watching thread, without the waiting.
#[test]
fn one_burst_of_changes_gets_one_answer() {
    let plan = Plan::of(&[mk("C:/art/bg.png")]);
    let mut w = Watcher::new();
    assert_eq!(w.turn(Some(&plan)), Turn::Rebuild);
    assert_eq!(w.turn(Some(&plan)), Turn::Wait);
    for i in 0..3u64 {
        let read = Waited::Read(Some(vec![(3, "bg.png".to_string())]));
        assert_eq!(w.waited(read, i * 60 * MS), Answer::Nothing);
    }
    assert_eq!(w.waited(Waited::Timeout, 200 * MS), Answer::Nothing);
    assert_eq!(w.waited(Waited::Timeout, 600 * MS), Answer::Post);
    assert_eq!(w.waited(Waited::Timeout, 1200 * MS), Answer::Nothing);
    assert_eq!(w.turn(None), Turn::Stop);
}

#[test]
fn a_failed_wait_pauses_and_a_stranger_says_nothing() {
    let plan = Plan::of(&[mk("C:/art/bg.png")]);
    let mut w = Watcher::new();
    w.turn(Some(&plan));
    assert_eq!(w.waited(Waited::Failed, 0), Answer::Pause);
    let read = Waited::Read(Some(vec![(3, "other.png".to_string())]));
    assert_eq!(w.waited(read, 0), Answer::Nothing);
    assert_eq!(w.waited(Waited::Timeout, 1000 * MS), Answer::Nothing);
}

#[test]
fn the_same_links_leave_the_thread_alone() {
    let links = [mk("C:/art/bg.png")];
    let plan = Some(Plan::of(&links));
    assert!(sync(&plan, &links, true, true).is_none());
    assert!(sync(&plan, &links, false, false).is_none(), "nor does a missing wake event touch it");
    assert!(sync(&plan, &[mk("C:/art/BG.png"), mk("C:/art/bg.png")], true, true).is_none(), "the same watch set");
    let s = sync(&None, &links, false, true).expect("a new plan");
    assert!(s.spawn && s.plan.is_some());
    let s = sync(&None, &links, false, false).expect("no wake event");
    assert!(s.plan.is_none() && !s.spawn, "no watcher without one");
    let s = sync(&plan, &[], true, true).expect("nothing left to watch");
    assert!(s.plan.is_none() && s.join);
}
