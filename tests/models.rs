use ssms_core::config::Config;
use ssms_core::models::{CalendarEventType, DeliveryType, OrderStatus, StockMovementType, VisitStatus};
use ssms_core::response::{default_page, default_per_page, ApiResponse, AppError, PaginatedResponse};
use ssms_core::{get_version, greet};

const ALL: [OrderStatus; 9] = [
    OrderStatus::New,
    OrderStatus::Quoted,
    OrderStatus::Agreed,
    OrderStatus::WaitingGoods,
    OrderStatus::Prepared,
    OrderStatus::OnWay,
    OrderStatus::Delivered,
    OrderStatus::Invoiced,
    OrderStatus::Cancelled,
];

#[test]
fn transition_table_matches_forward_flow() {
    for (i, cur) in ALL.iter().enumerate() {
        for (j, target) in ALL.iter().enumerate() {
            let expected = if *target == OrderStatus::Cancelled {
                *cur != OrderStatus::Cancelled && *cur != OrderStatus::Invoiced
            } else {
                i < 7 && j == i + 1
            };
            assert_eq!(cur.can_transition_to(*target), expected, "{:?} -> {:?}", cur, target);
        }
    }
}

#[test]
fn terminal_states_have_no_moves() {
    for t in ALL.iter() {
        assert!(!OrderStatus::Invoiced.can_transition_to(*t));
        assert!(!OrderStatus::Cancelled.can_transition_to(*t));
        assert!(!t.can_transition_to(*t));
    }
    assert_eq!(OrderStatus::Invoiced.next(), None);
    assert_eq!(OrderStatus::Cancelled.next(), None);
    assert_eq!(OrderStatus::Delivered.next(), Some(OrderStatus::Invoiced));
    assert_eq!(OrderStatus::New.next(), Some(OrderStatus::Quoted));
}

#[test]
fn status_tokens_round_trip() {
    let tokens = ["NEW", "QUOTED", "AGREED", "WAITING_GOODS", "PREPARED", "ON_WAY", "DELIVERED", "INVOICED", "CANCELLED"];
    for (s, t) in ALL.iter().zip(tokens.iter()) {
        assert_eq!(s.as_token(), *t);
        assert_eq!(OrderStatus::from_token(t), Some(*s));
    }
    assert_eq!(OrderStatus::from_token("new"), None);
    assert_eq!(OrderStatus::from_token(""), None);
}

#[test]
fn movement_and_delivery_tokens_round_trip() {
    let kinds = [
        (StockMovementType::In, "IN"),
        (StockMovementType::Out, "OUT"),
        (StockMovementType::Adjustment, "ADJUSTMENT"),
        (StockMovementType::Return, "RETURN"),
    ];
    for (k, t) in kinds.iter() {
        assert_eq!(k.as_token(), *t);
        assert_eq!(StockMovementType::from_token(t), Some(*k));
    }
    assert_eq!(StockMovementType::from_token("INN"), None);
    assert_eq!(DeliveryType::ViaWarehouse.as_token(), "VIA_WAREHOUSE");
    assert_eq!(DeliveryType::from_token("DIRECT_TO_SHIP"), Some(DeliveryType::DirectToShip));
    assert_eq!(DeliveryType::from_token("SHIP"), None);
}

#[test]
fn labels_and_colors() {
    assert_eq!(OrderStatus::New.display_name(), "Yeni");
    assert_eq!(OrderStatus::Cancelled.display_name(), "İptal");
    assert_eq!(DeliveryType::DirectToShip.display_name(), "Direkt Gemiye");
    assert_eq!(StockMovementType::Adjustment.display_name(), "Sayım Düzeltme");
    assert_eq!(VisitStatus::Arrived.display_name(), "Limanda");
    assert_eq!(CalendarEventType::ShipVisit.display_name(), "Gemi Ziyareti");
    assert_eq!(CalendarEventType::WarehouseDelivery.color(), "#F59E0B");
}

#[test]
fn error_codes() {
    assert_eq!(AppError::NotFound.code(), "NOT_FOUND");
    assert_eq!(AppError::ValidationError.code(), "BAD_REQUEST");
    assert_eq!(
        AppError::InvalidStateTransition { from: OrderStatus::New, to: OrderStatus::Agreed }.code(),
        "INVALID_STATE_TRANSITION"
    );
    assert_eq!(AppError::StorageFailure.code(), "DATABASE_ERROR");
}

#[test]
fn responses_and_pages() {
    let ok: ApiResponse<i32> = ApiResponse::success(5);
    assert_eq!(ok.data, Some(5));
    assert!(ok.error.is_none());
    let err: ApiResponse<i32> = ApiResponse::error_with_details("NOT_FOUND".to_string(), "missing".to_string(), "id 3".to_string());
    assert!(err.data.is_none());
    let e = err.error.unwrap();
    assert_eq!(e.code, "NOT_FOUND");
    assert_eq!(e.details, Some("id 3".to_string()));
    let plain: ApiResponse<i32> = ApiResponse::error("X".to_string(), "y".to_string());
    assert_eq!(plain.error.unwrap().details, None);
    assert_eq!(PaginatedResponse::new(vec![1, 2], 101, 1, 50).total_pages, 3);
    assert_eq!(PaginatedResponse::<u8>::new(vec![], 100, 2, 50).total_pages, 2);
    assert_eq!(PaginatedResponse::<u8>::new(vec![], 0, 1, 50).total_pages, 0);
    assert_eq!(PaginatedResponse::<u8>::new(vec![], u64::MAX, 1, 2).total_pages, u64::MAX / 2 + 1);
    assert_eq!(default_page(), 1);
    assert_eq!(default_per_page(), 50);
}

#[test]
fn config_defaults_and_overrides() {
    let c = Config::from_values(None, Some("127.0.0.1:8080".to_string()), None);
    assert_eq!(c.database_url, "sqlite://./ssms.db?mode=rwc");
    assert_eq!(c.server_address, "127.0.0.1:8080");
    assert_eq!(c.jwt_secret, "development-secret-key-change-in-production");
}

#[test]
fn greeting_and_version() {
    assert_eq!(greet("Deniz".to_string()), "Merhaba Deniz! SSMS Rust backend çalışıyor.");
    assert_eq!(get_version(), "SSMS Core v0.1.0");
}

#[test]
fn visit_status_tokens_round_trip() {
    for (v, t) in [
        (VisitStatus::Planned, "PLANNED"),
        (VisitStatus::Arrived, "ARRIVED"),
        (VisitStatus::Departed, "DEPARTED"),
        (VisitStatus::Cancelled, "CANCELLED"),
    ] {
        assert_eq!(v.as_token(), t);
        assert_eq!(VisitStatus::from_token(t), Some(v));
    }
    assert_eq!(VisitStatus::from_token("LEFT"), None);
}
