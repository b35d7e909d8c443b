use notification_popup::block::{
    select_border_color, BorderColors, UpdateModeTracker, UpdateModes, Urgency,
};

type Rgba = (f64, f64, f64, f64);

const WHITE: Rgba = (1.0, 1.0, 1.0, 1.0);
const RED: Rgba = (1.0, 0.0, 0.0, 1.0);
const BLUE: Rgba = (0.0, 0.0, 1.0, 1.0);
const GREY: Rgba = (0.5, 0.5, 0.5, 1.0);
const BLACK: Rgba = (0.0, 0.0, 0.0, 1.0);

fn colors(low: bool, critical: bool, paused: bool) -> BorderColors<Rgba> {
    BorderColors {
        default: BLACK,
        low: if low { Some(BLUE) } else { None },
        critical: if critical { Some(RED) } else { None },
        paused: if paused { Some(GREY) } else { None },
    }
}

#[test]
fn border_color_table() {
    let urgencies = [Urgency::Low, Urgency::Normal, Urgency::Critical];
    for &paused_mode in &[false, true] {
        let mode = if paused_mode {
            UpdateModes::from_bits_truncate(UpdateModes::TIMEOUT | UpdateModes::CONTENT)
        } else {
            UpdateModes::all()
        };
        for &urgency in &urgencies {
            for mask in 0..8u8 {
                let (low, critical, paused) = (mask & 1 != 0, mask & 2 != 0, mask & 4 != 0);
                let c = colors(low, critical, paused);
                let expected = if paused_mode {
                    if paused { GREY } else { BLACK }
                } else {
                    match urgency {
                        Urgency::Low => if low { BLUE } else { BLACK },
                        Urgency::Normal => BLACK,
                        Urgency::Critical => if critical { RED } else { BLACK },
                    }
                };
                assert_eq!(*select_border_color(&c, mode, urgency), expected);
            }
        }
    }
}

#[test]
fn critical_unpaused_block_is_red() {
    let c = BorderColors { default: WHITE, low: None, critical: Some(RED), paused: None };
    assert_eq!(*select_border_color(&c, UpdateModes::all(), Urgency::Critical), RED);
}

#[test]
fn empty_mode_counts_as_paused() {
    let c = colors(true, true, true);
    assert_eq!(*select_border_color(&c, UpdateModes::empty(), Urgency::Critical), GREY);
}

#[test]
fn update_modes_bits() {
    assert_eq!(UpdateModes::all().bits(), 7);
    assert_eq!(UpdateModes::empty().bits(), 0);
    assert_eq!(UpdateModes::from_bits_truncate(0xff), UpdateModes::all());
    assert!(UpdateModes::all().is_all());
    assert!(!UpdateModes::from_bits_truncate(UpdateModes::HOVER).is_all());
}

#[test]
fn update_reports_each_change_once() {
    let mut t = UpdateModeTracker::new(UpdateModes::all());
    assert!(!t.update(UpdateModes::all()));
    let paused = UpdateModes::from_bits_truncate(UpdateModes::HOVER);
    assert!(t.update(paused));
    assert!(!t.update(paused));
    assert!(!t.update(paused));
    assert!(t.update(UpdateModes::all()));
    assert!(!t.update(UpdateModes::all()));
    assert_eq!(t.current_update_mode(), UpdateModes::all());
}

#[test]
fn init_sets_baseline_without_reporting() {
    let mut t = UpdateModeTracker::new(UpdateModes::empty());
    t.init(UpdateModes::all());
    assert_eq!(t.current_update_mode(), UpdateModes::all());
    assert!(!t.update(UpdateModes::all()));
}
