use cell_arch::quota_service::{ComplexityQuota, ComplexityQuotaService, EventSchemaService};

#[test]
fn quotas_are_unknown() {
    let service = ComplexityQuotaService::new();
    let err = service.get_quota("q").unwrap_err();
    assert_eq!(format!("{:?}", err), "NotFound(\"复杂度配额 'q' 不存在\")");
    assert_eq!(service.check_quota("q").unwrap(), false);
    let q = ComplexityQuota { name: "q".to_string(), current_cyclomatic: 3, cyclomatic_complexity_limit: 10 };
    assert_eq!(service.format_quota(&q), "📊 复杂度配额: q\n  圈复杂度: 3.0/10.0\n  状态: ✅ 可用");
    assert!(EventSchemaService::new().list_schemas().is_empty());
}
