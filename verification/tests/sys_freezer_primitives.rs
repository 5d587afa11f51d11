use freezeit_daemon::sys::binder::{binder_freezer_ioctl_number, BinderFreezeRequest};

#[test]
fn binder_freezer_ioctl_numbers_are_stable_and_distinct() {
    assert_ne!(
        binder_freezer_ioctl_number(BinderFreezeRequest::Freeze),
        binder_freezer_ioctl_number(BinderFreezeRequest::Unfreeze)
    );
}
