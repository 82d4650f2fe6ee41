use hermit_core::live_tv_manager::HermitLiveTvManager;

#[test]
fn reports_disabled_and_empty() {
    let mgr = HermitLiveTvManager::new();
    let info = mgr.get_live_tv_info();
    assert!(!info.is_enabled);
    assert!(info.services.is_empty());
    let programs = mgr.get_programs::<String>();
    assert_eq!(programs.total_record_count, 0);
    assert!(programs.items.is_empty());
    assert!(mgr.reset_tuner("chan-1").is_ok());
}
