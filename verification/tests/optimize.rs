use memory_cleanr::optimize::{
    drive_root_path, fixed_drives, optimize_modified_file_cache, optimize_standby_list,
    optimize_working_set, step_plan, volume_device_path, MemoryAreas, StepPlanError, DRIVE_FIXED,
};
use memory_cleanr::win32::nt::{nt_status_result, InfoClass, SystemMemoryListCommand};

#[test]
fn step_plan_rejects_empty_selection() {
    assert!(step_plan(MemoryAreas::empty()).is_err());
}

#[test]
fn step_plan_preserves_optimize_order() {
    let areas = MemoryAreas::modified_file_cache() | MemoryAreas::working_set();
    let plan = step_plan(areas).expect("plan");
    let labels: Vec<_> = plan.into_iter().map(|(label, _)| label).collect();
    assert_eq!(labels, vec!["工作集", "已修改文件"]);
}

#[test]
fn memory_area_labels_are_stable() {
    assert_eq!(MemoryAreas::working_set().label(), "工作集");
    assert_eq!(MemoryAreas::registry_cache().label(), "注册表缓存");
}

#[test]
fn default_plan_and_unknown_bits() {
    let plan = step_plan(MemoryAreas::default_areas()).expect("plan");
    let labels: Vec<_> = plan.iter().map(|(label, _)| *label).collect();
    assert_eq!(
        labels,
        vec!["工作集", "系统文件缓存", "已修改页面", "待机列表", "合并页面", "已修改文件"]
    );
    // Only unknown bits: not empty, but nothing to run.
    let only_unknown = step_plan(MemoryAreas::from_bits_retain(1 << 9)).expect("plan");
    assert!(only_unknown.is_empty());
    assert_eq!(MemoryAreas::from_bits_truncate(0xFFFF).bits(), 0xFF);
    assert_eq!(step_plan(MemoryAreas::empty()).unwrap_err(), StepPlanError::NoAreasSelected);
    assert_eq!(StepPlanError::NoAreasSelected.message(), "no memory areas selected");
    assert_eq!((MemoryAreas::working_set() | MemoryAreas::standby_list()).label(), "未知区域");
}

#[test]
fn purge_requests_and_status() {
    assert_eq!(optimize_working_set().command, SystemMemoryListCommand::EmptyWorkingSets);
    assert_eq!(
        optimize_standby_list(true).command,
        SystemMemoryListCommand::PurgeLowPriorityStandbyList
    );
    assert_eq!(optimize_standby_list(false).command.code(), 4);
    assert_eq!(InfoClass::MemoryList.code(), 80);
    assert_eq!(nt_status_result(0), Ok(()));
    assert_eq!(
        nt_status_result(0xC0000061u32 as i32),
        Err("NTSTATUS 0xC0000061".to_string())
    );
    assert_eq!(nt_status_result(5), Err("NTSTATUS 0x00000005".to_string()));
}

#[test]
fn drive_flush_failures_are_listed() {
    assert_eq!(optimize_modified_file_cache(&[]), Ok(()));
    assert_eq!(
        optimize_modified_file_cache(&['C', 'D']),
        Err(format!("驱动 {:?} 刷新失败", vec!['C', 'D']))
    );
}

#[test]
fn fixed_drives_come_from_the_drive_types() {
    let mut types = vec![1u32; 26];
    types[2] = DRIVE_FIXED;
    types[3] = DRIVE_FIXED;
    types[4] = 5;
    types[25] = DRIVE_FIXED;
    assert_eq!(fixed_drives(&types), vec!['C', 'D', 'Z']);
    assert!(fixed_drives(&[0u32; 26]).is_empty());
}

#[test]
fn drive_paths_are_nul_terminated_wide_strings() {
    let root: Vec<u16> = "C:\\\0".encode_utf16().collect();
    assert_eq!(drive_root_path('C'), root);
    let device: Vec<u16> = "\\\\.\\D:\0".encode_utf16().collect();
    assert_eq!(volume_device_path('D'), device);
}
