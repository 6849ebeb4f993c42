use deskvm_dprocess::flags::{DProcessFlags, Priority};

#[test]
fn default_priority_is_default() {
    assert_eq!(Priority::default(), Priority::Default);
    assert_eq!(DProcessFlags::default().priority(), Priority::Default);
}

#[test]
fn priority_can_be_changed() {
    let mut flags = DProcessFlags::new(Priority::Low);
    assert_eq!(flags.priority(), Priority::Low);
    flags.set_priority(Priority::InternalMax);
    assert_eq!(flags.priority(), Priority::InternalMax);
    assert_ne!(flags, DProcessFlags::default());
}
