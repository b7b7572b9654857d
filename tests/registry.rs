use libui::{DuplicateIdError, IdCounter, NewWindows, WindowPainter, WindowRegistry};

#[test]
fn add_duplicate_id_is_rejected() {
    let mut reg: WindowRegistry<&str> = WindowRegistry::new();
    assert_eq!(reg.add(1, "first"), Ok(()));
    assert_eq!(reg.add(2, "second"), Ok(()));
    assert_eq!(reg.add(1, "again"), Err(DuplicateIdError { id: 1 }));
    assert_eq!(reg.len(), 2);
    assert_eq!(*reg.window(0), "first");
    assert_eq!(*reg.window(1), "second");
    assert_eq!(reg.id_at(0), 1);
    assert!(reg.contains(2));
    assert!(!reg.contains(3));
}

#[test]
fn retain_open_prunes_closed_windows() {
    let mut reg: WindowRegistry<&str> = WindowRegistry::new();
    reg.add(1, "a").unwrap();
    reg.add(2, "b").unwrap();
    reg.add(3, "c").unwrap();
    reg.retain_open(&vec![true, false, true]);
    assert_eq!(reg.len(), 2);
    assert_eq!(reg.id_at(0), 1);
    assert_eq!(reg.id_at(1), 3);
    assert_eq!(*reg.window(1), "c");
    assert!(!reg.contains(2));
    reg.retain_open(&vec![false, false]);
    assert_eq!(reg.len(), 0);
}

#[test]
fn window_added_while_drawing_is_not_drawn_that_frame() {
    let mut reg: WindowRegistry<u32> = WindowRegistry::new();
    reg.add(1, 10).unwrap();
    reg.add(2, 20).unwrap();
    let n = reg.len();
    let mut drawn = Vec::new();
    for i in 0..n {
        drawn.push(*reg.window(i));
        if i == 0 {
            // the first window opens another one while it is drawn
            reg.add(9, 90).unwrap();
        }
    }
    assert_eq!(drawn, vec![10, 20]);
    let open = vec![true; reg.len()];
    reg.retain_open(&open);
    assert_eq!(reg.len(), 3);
    assert_eq!(reg.id_at(2), 9);
}

#[test]
fn unique_ids_start_at_one_and_increase() {
    let mut ids = IdCounter::new();
    assert_eq!(ids.get_unique_id(), 1);
    assert_eq!(ids.get_unique_id(), 2);
    assert_eq!(ids.get_unique_id(), 3);
}

struct Recorder {
    painted: Vec<u32>,
    add_result: Vec<bool>,
}

impl WindowPainter<u32> for Recorder {
    fn paint(&mut self, window: &u32, new_windows: &mut NewWindows<u32>) {
        self.painted.push(*window);
        if *window == 10 {
            self.add_result.push(new_windows.add(9, 90).is_ok());
            self.add_result.push(new_windows.add(2, 91).is_ok());
        }
    }
    fn is_open(&mut self, window: &u32) -> bool {
        *window != 20
    }
}

#[test]
fn draw_paints_snapshot_then_prunes_closed() {
    let mut reg: WindowRegistry<u32> = WindowRegistry::new();
    reg.add(1, 10).unwrap();
    reg.add(2, 20).unwrap();
    reg.add(3, 30).unwrap();
    let mut p = Recorder { painted: Vec::new(), add_result: Vec::new() };
    let drawn = reg.draw(&mut p);
    assert_eq!(drawn, vec![1, 2, 3]);
    assert_eq!(p.painted, vec![10, 20, 30]);
    assert_eq!(p.add_result, vec![true, false]);
    assert_eq!(reg.len(), 3);
    assert_eq!(reg.id_at(0), 1);
    assert_eq!(reg.id_at(1), 3);
    assert_eq!(reg.id_at(2), 9);
    assert!(!reg.contains(2));
}
