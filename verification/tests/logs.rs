use port_registry::logs::{
    DocumentDetails, DocumentLogPayload, EmergencyDetails, EmergencyDispatchPayload,
    InspectionDetails, InspectionPayload, MaintenanceDetails, MaintenanceLogPayload,
    PortTrafficReport, ResourceUpdate, ResourceUpdatePayload, TrafficAnalysisPayload,
};
use port_registry::record::{fits, Record};
use port_registry::registry::Registry;
use port_registry::row::Row;
use port_registry::types::AdminPrincipal;

fn fresh() -> Registry {
    Registry::init(AdminPrincipal("2vxsx-fae".to_string())).unwrap()
}

#[test]
fn analyze_port_traffic_reports_no_movements() {
    let mut reg = fresh();
    let report = reg
        .analyze_port_traffic(TrafficAnalysisPayload { port_id: 3, start_date: 10, end_date: 20 })
        .unwrap();
    assert_eq!(
        report,
        PortTrafficReport {
            port_id: 3,
            start_date: 10,
            end_date: 20,
            total_arrivals: 0,
            total_departures: 0,
        }
    );
}

#[test]
fn logging_leaves_ports_users_and_the_counter_alone() {
    let mut reg = fresh();
    reg.log_ship_inspection(
        1,
        InspectionPayload {
            ship_id: 2,
            inspection_date: 3,
            findings: "rust".to_string(),
            inspector_notes: "repaint".to_string(),
        },
    )
    .unwrap();
    reg.dispatch_emergency_info(
        EmergencyDispatchPayload {
            port_id: 77,
            emergency_type: "fire".to_string(),
            description: "pier 4".to_string(),
        },
        1000,
    )
    .unwrap();
    reg.log_maintenance_activity(
        MaintenanceLogPayload {
            port_id: 1,
            description: "dredging".to_string(),
            scheduled_time: 5,
            duration_hours: 6,
        },
        1001,
    )
    .unwrap();
    reg.update_port_resources(
        ResourceUpdatePayload {
            port_id: 1,
            resource_id: 8,
            resource_type: "crane".to_string(),
            available: true,
        },
        1002,
    )
    .unwrap();
    reg.log_customs_documents(
        DocumentLogPayload {
            ship_id: 2,
            port_id: 1,
            document_type: "manifest".to_string(),
            content: "grain".to_string(),
        },
        1003,
    )
    .unwrap();
    assert!(reg.get_all_ports().is_empty());
    assert!(reg.get_all_users().is_empty());
    assert_eq!(reg.next_id(), 0);
}

#[test]
fn inspection_row_and_back() {
    let details = InspectionDetails {
        port_id: 1,
        ship_id: 2,
        inspection_date: 3,
        findings: "rust".to_string(),
        inspector_notes: "repaint".to_string(),
    };
    let row = details.to_row();
    assert_eq!(details.key(), 2);
    assert_eq!(row.nums, vec![1, 3]);
    assert_eq!(row.first, "rust");
    assert_eq!(row.second, "repaint");
    assert_eq!(InspectionDetails::from_row(2, row), Some(details));
}

#[test]
fn traffic_report_row_and_back() {
    let report = PortTrafficReport {
        port_id: 9,
        start_date: 1,
        end_date: 2,
        total_arrivals: 3,
        total_departures: 4,
    };
    let row = report.to_row();
    assert_eq!(report.key(), 9);
    assert_eq!(row.nums, vec![1, 2, 3, 4]);
    assert_eq!(row.first, "");
    assert_eq!(row.second, "");
    assert_eq!(PortTrafficReport::from_row(9, row), Some(report));
    let with_text = Row { nums: vec![1, 2, 3, 4], first: "x".to_string(), second: String::new() };
    assert_eq!(PortTrafficReport::from_row(9, with_text), None);
}

#[test]
fn emergency_row_and_back() {
    let details = EmergencyDetails {
        port_id: 5,
        emergency_type: "fire".to_string(),
        description: "pier 4".to_string(),
        timestamp: 1000,
    };
    let row = details.to_row();
    assert_eq!(details.key(), 5);
    assert_eq!(row.nums, vec![1000]);
    assert_eq!(EmergencyDetails::from_row(5, row), Some(details));
}

#[test]
fn maintenance_row_and_back() {
    let details = MaintenanceDetails {
        port_id: 5,
        maintenance_id: 1001,
        description: "dredging".to_string(),
        scheduled_time: 7,
        duration_hours: 8,
    };
    let row = details.to_row();
    assert_eq!(details.key(), 1001);
    assert_eq!(row.nums, vec![5, 7, 8]);
    assert_eq!(row.first, "dredging");
    assert_eq!(row.second, "");
    assert_eq!(MaintenanceDetails::from_row(1001, row), Some(details));
}

#[test]
fn resource_row_and_back() {
    for available in [true, false] {
        let update = ResourceUpdate {
            port_id: 5,
            resource_id: 6,
            resource_type: "crane".to_string(),
            available,
            last_updated: 9,
        };
        let row = update.to_row();
        assert_eq!(update.key(), 6);
        assert_eq!(row.nums, vec![5, if available { 1 } else { 0 }, 9]);
        assert_eq!(ResourceUpdate::from_row(6, row), Some(update));
    }
    let odd = Row { nums: vec![5, 2, 9], first: "crane".to_string(), second: String::new() };
    assert_eq!(ResourceUpdate::from_row(6, odd), None);
}

#[test]
fn document_row_and_back() {
    let details = DocumentDetails {
        document_id: 1003,
        ship_id: 2,
        port_id: 1,
        document_type: "manifest".to_string(),
        content: "grain".to_string(),
        timestamp: 1003,
    };
    let row = details.to_row();
    assert_eq!(details.key(), 1003);
    assert_eq!(row.nums, vec![2, 1, 1003]);
    assert_eq!(DocumentDetails::from_row(1003, row), Some(details));
}

#[test]
fn a_payload_becomes_the_details_it_describes() {
    let inspection = InspectionPayload {
        ship_id: 2,
        inspection_date: 3,
        findings: "rust".to_string(),
        inspector_notes: "repaint".to_string(),
    }
    .into_details(1);
    assert_eq!(
        inspection,
        InspectionDetails {
            port_id: 1,
            ship_id: 2,
            inspection_date: 3,
            findings: "rust".to_string(),
            inspector_notes: "repaint".to_string(),
        }
    );
    let emergency = EmergencyDispatchPayload {
        port_id: 5,
        emergency_type: "fire".to_string(),
        description: "pier 4".to_string(),
    }
    .into_details(1000);
    assert_eq!(
        emergency,
        EmergencyDetails {
            port_id: 5,
            emergency_type: "fire".to_string(),
            description: "pier 4".to_string(),
            timestamp: 1000,
        }
    );
    let maintenance = MaintenanceLogPayload {
        port_id: 5,
        description: "dredging".to_string(),
        scheduled_time: 7,
        duration_hours: 8,
    }
    .into_details(1001);
    assert_eq!(
        maintenance,
        MaintenanceDetails {
            port_id: 5,
            maintenance_id: 1001,
            description: "dredging".to_string(),
            scheduled_time: 7,
            duration_hours: 8,
        }
    );
    let update = ResourceUpdatePayload {
        port_id: 5,
        resource_id: 6,
        resource_type: "crane".to_string(),
        available: false,
    }
    .into_details(1002);
    assert_eq!(
        update,
        ResourceUpdate {
            port_id: 5,
            resource_id: 6,
            resource_type: "crane".to_string(),
            available: false,
            last_updated: 1002,
        }
    );
    let document = DocumentLogPayload {
        ship_id: 2,
        port_id: 1,
        document_type: "manifest".to_string(),
        content: "grain".to_string(),
    }
    .into_details(1003);
    assert_eq!(
        document,
        DocumentDetails {
            document_id: 1003,
            ship_id: 2,
            port_id: 1,
            document_type: "manifest".to_string(),
            content: "grain".to_string(),
            timestamp: 1003,
        }
    );
}

#[test]
fn a_record_fits_up_to_the_bound() {
    let within = EmergencyDetails {
        port_id: 5,
        emergency_type: "a".repeat(1000),
        description: "b".repeat(11),
        timestamp: 1,
    };
    let over = EmergencyDetails { description: "b".repeat(12), ..within.clone() };
    assert!(fits(&within));
    assert!(!fits(&over));
    assert!(fits(&PortTrafficReport::default()));
}

#[test]
fn each_kind_of_log_has_its_own_bound() {
    assert_eq!(InspectionDetails::max_bytes(), 2048);
    assert_eq!(PortTrafficReport::max_bytes(), 1024);
    assert_eq!(EmergencyDetails::max_bytes(), 1024);
    assert_eq!(MaintenanceDetails::max_bytes(), 2048);
    assert_eq!(ResourceUpdate::max_bytes(), 2048);
    assert_eq!(DocumentDetails::max_bytes(), 2048);
}

#[test]
fn a_document_fits_up_to_the_longer_bound() {
    let within = DocumentDetails {
        document_id: 1,
        ship_id: 2,
        port_id: 3,
        document_type: "a".repeat(2000),
        content: "b".repeat(19),
        timestamp: 4,
    };
    let over = DocumentDetails { content: "b".repeat(20), ..within.clone() };
    assert!(fits(&within));
    assert!(!fits(&over));
}

#[test]
fn an_inspection_a_maintenance_and_a_resource_fit_up_to_the_longer_bound() {
    let inspection = InspectionDetails {
        port_id: 1,
        ship_id: 2,
        inspection_date: 3,
        findings: "a".repeat(2000),
        inspector_notes: "b".repeat(27),
    };
    assert!(fits(&inspection));
    assert!(!fits(&InspectionDetails { inspector_notes: "b".repeat(28), ..inspection }));
    let maintenance = MaintenanceDetails {
        port_id: 1,
        maintenance_id: 2,
        description: "a".repeat(2019),
        scheduled_time: 3,
        duration_hours: 4,
    };
    assert!(fits(&maintenance));
    assert!(!fits(&MaintenanceDetails { description: "a".repeat(2020), ..maintenance }));
    let resource = ResourceUpdate {
        port_id: 1,
        resource_id: 2,
        resource_type: "a".repeat(2019),
        available: true,
        last_updated: 3,
    };
    assert!(fits(&resource));
    assert!(!fits(&ResourceUpdate { resource_type: "a".repeat(2020), ..resource }));
}

#[test]
fn a_long_document_is_logged() {
    let mut reg = fresh();
    let payload = DocumentLogPayload {
        ship_id: 2,
        port_id: 1,
        document_type: "manifest".to_string(),
        content: "c".repeat(1900),
    };
    assert!(fits(&payload.clone().into_details(5)));
    assert_eq!(reg.log_customs_documents(payload, 5), Ok(()));
}
