//! Domain types: order status state machine, movement kinds and the records
//! that the services read and write.
use vstd::prelude::*;

verus! {

/// Order status. The forward flow is
/// New -> Quoted -> Agreed -> WaitingGoods -> Prepared -> OnWay -> Delivered -> Invoiced;
/// Cancelled is a side terminal state.
#[derive(Debug, Clone, Copy, PartialEq, Eq, Structural)]
pub enum OrderStatus {
    New,
    Quoted,
    Agreed,
    WaitingGoods,
    Prepared,
    OnWay,
    Delivered,
    Invoiced,
    Cancelled,
}

/// The single forward successor of a status, if any.
pub open spec fn successor(s: OrderStatus) -> Option<OrderStatus> {
    match s {
        OrderStatus::New => Some(OrderStatus::Quoted),
        OrderStatus::Quoted => Some(OrderStatus::Agreed),
        OrderStatus::Agreed => Some(OrderStatus::WaitingGoods),
        OrderStatus::WaitingGoods => Some(OrderStatus::Prepared),
        OrderStatus::Prepared => Some(OrderStatus::OnWay),
        OrderStatus::OnWay => Some(OrderStatus::Delivered),
        OrderStatus::Delivered => Some(OrderStatus::Invoiced),
        OrderStatus::Invoiced => None,
        OrderStatus::Cancelled => None,
    }
}

/// A status from which nothing can be reached.
pub open spec fn is_terminal(s: OrderStatus) -> bool {
    s == OrderStatus::Invoiced || s == OrderStatus::Cancelled
}

/// The transition rule: cancelling is allowed from every non-terminal status;
/// otherwise only the forward successor may be requested.
pub open spec fn transition_allowed(current: OrderStatus, target: OrderStatus) -> bool {
    if target == OrderStatus::Cancelled {
        !is_terminal(current)
    } else {
        successor(current) == Some(target)
    }
}

/// The transition table: nothing leaves Invoiced or Cancelled; every other
/// status may be cancelled; otherwise only the immediate successor is allowed.
pub proof fn lemma_transition_table(current: OrderStatus, target: OrderStatus)
    ensures
        current == OrderStatus::Invoiced ==> !transition_allowed(current, target),
        current == OrderStatus::Cancelled ==> !transition_allowed(current, target),
        !is_terminal(current) && target == OrderStatus::Cancelled ==> transition_allowed(current, target),
        target != OrderStatus::Cancelled && successor(current) != Some(target)
            ==> !transition_allowed(current, target),
        target != OrderStatus::Cancelled && successor(current) == Some(target)
            ==> transition_allowed(current, target),
{
}

/// No status may move to itself, Cancelled included.
pub proof fn lemma_no_self_transition(s: OrderStatus)
    ensures
        !transition_allowed(s, s),
{
}

/// The stable storage token of a status.
pub open spec fn status_token(s: OrderStatus) -> Seq<char> {
    match s {
        OrderStatus::New => "NEW"@,
        OrderStatus::Quoted => "QUOTED"@,
        OrderStatus::Agreed => "AGREED"@,
        OrderStatus::WaitingGoods => "WAITING_GOODS"@,
        OrderStatus::Prepared => "PREPARED"@,
        OrderStatus::OnWay => "ON_WAY"@,
        OrderStatus::Delivered => "DELIVERED"@,
        OrderStatus::Invoiced => "INVOICED"@,
        OrderStatus::Cancelled => "CANCELLED"@,
    }
}

/// The Turkish label shown to users for a status.
pub open spec fn status_label(s: OrderStatus) -> Seq<char> {
    match s {
        OrderStatus::New => "Yeni"@,
        OrderStatus::Quoted => "Fiyat Verildi"@,
        OrderStatus::Agreed => "Onaylandı"@,
        OrderStatus::WaitingGoods => "Mal Bekleniyor"@,
        OrderStatus::Prepared => "Hazırlandı"@,
        OrderStatus::OnWay => "Yolda"@,
        OrderStatus::Delivered => "Teslim Edildi"@,
        OrderStatus::Invoiced => "Faturalandı"@,
        OrderStatus::Cancelled => "İptal"@,
    }
}

impl OrderStatus {
    /// The next status in the forward flow.
    pub fn next(&self) -> (r: Option<OrderStatus>)
        ensures
            r == successor(*self),
    {
        match self {
            OrderStatus::New => Some(OrderStatus::Quoted),
            OrderStatus::Quoted => Some(OrderStatus::Agreed),
            OrderStatus::Agreed => Some(OrderStatus::WaitingGoods),
            OrderStatus::WaitingGoods => Some(OrderStatus::Prepared),
            OrderStatus::Prepared => Some(OrderStatus::OnWay),
            OrderStatus::OnWay => Some(OrderStatus::Delivered),
            OrderStatus::Delivered => Some(OrderStatus::Invoiced),
            OrderStatus::Invoiced => None,
            OrderStatus::Cancelled => None,
        }
    }

    /// Whether `new_status` may follow this status.
    pub fn can_transition_to(&self, new_status: OrderStatus) -> (r: bool)
        ensures
            r == transition_allowed(*self, new_status),
    {
        if new_status == OrderStatus::Cancelled {
            return *self != OrderStatus::Cancelled && *self != OrderStatus::Invoiced;
        }
        match self.next() {
            Some(n) => n == new_status,
            None => false,
        }
    }

    /// The Turkish label of this status.
    pub fn display_name(&self) -> (r: &'static str)
        ensures
            r@ == status_label(*self),
    {
        match self {
            OrderStatus::New => "Yeni",
            OrderStatus::Quoted => "Fiyat Verildi",
            OrderStatus::Agreed => "Onaylandı",
            OrderStatus::WaitingGoods => "Mal Bekleniyor",
            OrderStatus::Prepared => "Hazırlandı",
            OrderStatus::OnWay => "Yolda",
            OrderStatus::Delivered => "Teslim Edildi",
            OrderStatus::Invoiced => "Faturalandı",
            OrderStatus::Cancelled => "İptal",
        }
    }
}

/// Whether two strings hold the same characters.
pub fn same_text(a: &str, b: &str) -> (r: bool)
    ensures
        r == (a@ == b@),
{
    a.to_owned() == b.to_owned()
}

/// The first letter of a status token; it differs between any two statuses.
pub open spec fn token_initial(s: OrderStatus) -> char {
    match s {
        OrderStatus::New => 'N',
        OrderStatus::Quoted => 'Q',
        OrderStatus::Agreed => 'A',
        OrderStatus::WaitingGoods => 'W',
        OrderStatus::Prepared => 'P',
        OrderStatus::OnWay => 'O',
        OrderStatus::Delivered => 'D',
        OrderStatus::Invoiced => 'I',
        OrderStatus::Cancelled => 'C',
    }
}

/// Distinct statuses have distinct storage tokens.
pub proof fn lemma_status_token_injective(a: OrderStatus, b: OrderStatus)
    ensures
        status_token(a) == status_token(b) ==> a == b,
{
    lemma_token_initial(a);
    lemma_token_initial(b);
}

proof fn lemma_token_initial(s: OrderStatus)
    ensures
        status_token(s).len() > 0,
        status_token(s)[0] == token_initial(s),
{
    reveal_strlit("NEW");
    reveal_strlit("QUOTED");
    reveal_strlit("AGREED");
    reveal_strlit("WAITING_GOODS");
    reveal_strlit("PREPARED");
    reveal_strlit("ON_WAY");
    reveal_strlit("DELIVERED");
    reveal_strlit("INVOICED");
    reveal_strlit("CANCELLED");
}

impl OrderStatus {
    /// The stable storage token of this status.
    pub fn as_token(&self) -> (r: &'static str)
        ensures
            r@ == status_token(*self),
    {
        match self {
            OrderStatus::New => "NEW",
            OrderStatus::Quoted => "QUOTED",
            OrderStatus::Agreed => "AGREED",
            OrderStatus::WaitingGoods => "WAITING_GOODS",
            OrderStatus::Prepared => "PREPARED",
            OrderStatus::OnWay => "ON_WAY",
            OrderStatus::Delivered => "DELIVERED",
            OrderStatus::Invoiced => "INVOICED",
            OrderStatus::Cancelled => "CANCELLED",
        }
    }

    /// The status whose storage token is `s`, if any.
    pub fn from_token(s: &str) -> (r: Option<OrderStatus>)
        ensures
            forall|st: OrderStatus| r == Some(st) <==> s@ == status_token(st),
    {
        let all = [
            OrderStatus::New,
            OrderStatus::Quoted,
            OrderStatus::Agreed,
            OrderStatus::WaitingGoods,
            OrderStatus::Prepared,
            OrderStatus::OnWay,
            OrderStatus::Delivered,
            OrderStatus::Invoiced,
            OrderStatus::Cancelled,
        ];
        let mut i: usize = 0;
        while i < 9
            invariant
                0 <= i <= 9,
                all@ == seq![
                    OrderStatus::New,
                    OrderStatus::Quoted,
                    OrderStatus::Agreed,
                    OrderStatus::WaitingGoods,
                    OrderStatus::Prepared,
                    OrderStatus::OnWay,
                    OrderStatus::Delivered,
                    OrderStatus::Invoiced,
                    OrderStatus::Cancelled,
                ],
                forall|j: int| 0 <= j < i ==> s@ != status_token(all@[j]),
            decreases 9 - i,
        {
            if same_text(s, all[i].as_token()) {
                proof {
                    assert forall|st: OrderStatus| s@ == status_token(st) implies st == all@[i as int] by {
                        lemma_status_token_injective(st, all@[i as int]);
                    }
                }
                return Some(all[i]);
            }
            i = i + 1;
        }
        None
    }
}

/// How a line item reaches the ship.
#[derive(Debug, Clone, Copy, PartialEq, Eq, Structural)]
pub enum DeliveryType {
    /// Supplier to warehouse, then to the ship.
    ViaWarehouse,
    /// Supplier straight to the ship.
    DirectToShip,
}

pub open spec fn delivery_label(d: DeliveryType) -> Seq<char> {
    match d {
        DeliveryType::ViaWarehouse => "Depo Üzerinden"@,
        DeliveryType::DirectToShip => "Direkt Gemiye"@,
    }
}

pub open spec fn delivery_token(d: DeliveryType) -> Seq<char> {
    match d {
        DeliveryType::ViaWarehouse => "VIA_WAREHOUSE"@,
        DeliveryType::DirectToShip => "DIRECT_TO_SHIP"@,
    }
}

impl DeliveryType {
    /// The Turkish label of this delivery route.
    pub fn display_name(&self) -> (r: &'static str)
        ensures
            r@ == delivery_label(*self),
    {
        match self {
            DeliveryType::ViaWarehouse => "Depo Üzerinden",
            DeliveryType::DirectToShip => "Direkt Gemiye",
        }
    }

    /// The stable storage token of this delivery route.
    pub fn as_token(&self) -> (r: &'static str)
        ensures
            r@ == delivery_token(*self),
    {
        match self {
            DeliveryType::ViaWarehouse => "VIA_WAREHOUSE",
            DeliveryType::DirectToShip => "DIRECT_TO_SHIP",
        }
    }

    /// The delivery route whose storage token is `s`, if any.
    pub fn from_token(s: &str) -> (r: Option<DeliveryType>)
        ensures
            forall|d: DeliveryType| r == Some(d) <==> s@ == delivery_token(d),
    {
        proof {
            reveal_strlit("VIA_WAREHOUSE");
            reveal_strlit("DIRECT_TO_SHIP");
            assert("VIA_WAREHOUSE"@[0] == 'V');
            assert("DIRECT_TO_SHIP"@[0] == 'D');
        }
        if same_text(s, "VIA_WAREHOUSE") {
            Some(DeliveryType::ViaWarehouse)
        } else if same_text(s, "DIRECT_TO_SHIP") {
            Some(DeliveryType::DirectToShip)
        } else {
            None
        }
    }
}

/// The kind of a stock movement. The kind, not the sign of the quantity,
/// gives the direction.
#[derive(Debug, Clone, Copy, PartialEq, Eq, Structural)]
pub enum StockMovementType {
    /// Goods received from a supplier.
    In,
    /// Goods sent to a ship.
    Out,
    /// A count correction: its quantity is the new absolute level.
    Adjustment,
    /// Goods returned from a ship.
    Return,
}

pub open spec fn movement_label(k: StockMovementType) -> Seq<char> {
    match k {
        StockMovementType::In => "Giriş"@,
        StockMovementType::Out => "Çıkış"@,
        StockMovementType::Adjustment => "Sayım Düzeltme"@,
        StockMovementType::Return => "İade"@,
    }
}

pub open spec fn movement_token(k: StockMovementType) -> Seq<char> {
    match k {
        StockMovementType::In => "IN"@,
        StockMovementType::Out => "OUT"@,
        StockMovementType::Adjustment => "ADJUSTMENT"@,
        StockMovementType::Return => "RETURN"@,
    }
}

impl StockMovementType {
    /// The Turkish label of this movement kind.
    pub fn display_name(&self) -> (r: &'static str)
        ensures
            r@ == movement_label(*self),
    {
        match self {
            StockMovementType::In => "Giriş",
            StockMovementType::Out => "Çıkış",
            StockMovementType::Adjustment => "Sayım Düzeltme",
            StockMovementType::Return => "İade",
        }
    }

    /// The stable storage token of this movement kind.
    pub fn as_token(&self) -> (r: &'static str)
        ensures
            r@ == movement_token(*self),
    {
        match self {
            StockMovementType::In => "IN",
            StockMovementType::Out => "OUT",
            StockMovementType::Adjustment => "ADJUSTMENT",
            StockMovementType::Return => "RETURN",
        }
    }

    /// The movement kind whose storage token is `s`, if any.
    pub fn from_token(s: &str) -> (r: Option<StockMovementType>)
        ensures
            forall|k: StockMovementType| r == Some(k) <==> s@ == movement_token(k),
    {
        proof {
            reveal_strlit("IN");
            reveal_strlit("OUT");
            reveal_strlit("ADJUSTMENT");
            reveal_strlit("RETURN");
            assert("IN"@[0] == 'I');
            assert("OUT"@[0] == 'O');
            assert("ADJUSTMENT"@[0] == 'A');
            assert("RETURN"@[0] == 'R');
        }
        if same_text(s, "IN") {
            Some(StockMovementType::In)
        } else if same_text(s, "OUT") {
            Some(StockMovementType::Out)
        } else if same_text(s, "ADJUSTMENT") {
            Some(StockMovementType::Adjustment)
        } else if same_text(s, "RETURN") {
            Some(StockMovementType::Return)
        } else {
            None
        }
    }
}

/// Status of a ship's port call.
#[derive(Debug, Clone, Copy, PartialEq, Eq, Structural)]
pub enum VisitStatus {
    Planned,
    Arrived,
    Departed,
    Cancelled,
}

pub open spec fn visit_label(v: VisitStatus) -> Seq<char> {
    match v {
        VisitStatus::Planned => "Planlandı"@,
        VisitStatus::Arrived => "Limanda"@,
        VisitStatus::Departed => "Ayrıldı"@,
        VisitStatus::Cancelled => "İptal"@,
    }
}

pub open spec fn visit_token(v: VisitStatus) -> Seq<char> {
    match v {
        VisitStatus::Planned => "PLANNED"@,
        VisitStatus::Arrived => "ARRIVED"@,
        VisitStatus::Departed => "DEPARTED"@,
        VisitStatus::Cancelled => "CANCELLED"@,
    }
}

impl VisitStatus {
    /// The stable storage token of this visit status.
    pub fn as_token(&self) -> (r: &'static str)
        ensures
            r@ == visit_token(*self),
    {
        match self {
            VisitStatus::Planned => "PLANNED",
            VisitStatus::Arrived => "ARRIVED",
            VisitStatus::Departed => "DEPARTED",
            VisitStatus::Cancelled => "CANCELLED",
        }
    }

    /// The visit status whose storage token is `s`, if any.
    pub fn from_token(s: &str) -> (r: Option<VisitStatus>)
        ensures
            forall|v: VisitStatus| r == Some(v) <==> s@ == visit_token(v),
    {
        proof {
            reveal_strlit("PLANNED");
            reveal_strlit("ARRIVED");
            reveal_strlit("DEPARTED");
            reveal_strlit("CANCELLED");
            assert("PLANNED"@[0] == 'P');
            assert("ARRIVED"@[0] == 'A');
            assert("DEPARTED"@[0] == 'D');
            assert("CANCELLED"@[0] == 'C');
        }
        if same_text(s, "PLANNED") {
            Some(VisitStatus::Planned)
        } else if same_text(s, "ARRIVED") {
            Some(VisitStatus::Arrived)
        } else if same_text(s, "DEPARTED") {
            Some(VisitStatus::Departed)
        } else if same_text(s, "CANCELLED") {
            Some(VisitStatus::Cancelled)
        } else {
            None
        }
    }

    /// The Turkish label of this visit status.
    pub fn display_name(&self) -> (r: &'static str)
        ensures
            r@ == visit_label(*self),
    {
        match self {
            VisitStatus::Planned => "Planlandı",
            VisitStatus::Arrived => "Limanda",
            VisitStatus::Departed => "Ayrıldı",
            VisitStatus::Cancelled => "İptal",
        }
    }
}

/// Kind of an entry in the calendar view.
#[derive(Debug, Clone, Copy, PartialEq, Eq, Structural)]
pub enum CalendarEventType {
    ShipVisit,
    OrderDelivery,
    WarehouseDelivery,
    ShipDelivery,
}

pub open spec fn calendar_label(e: CalendarEventType) -> Seq<char> {
    match e {
        CalendarEventType::ShipVisit => "Gemi Ziyareti"@,
        CalendarEventType::OrderDelivery => "Sipariş Teslimatı"@,
        CalendarEventType::WarehouseDelivery => "Depoya Teslimat"@,
        CalendarEventType::ShipDelivery => "Gemiye Teslimat"@,
    }
}

pub open spec fn calendar_color(e: CalendarEventType) -> Seq<char> {
    match e {
        CalendarEventType::ShipVisit => "#1E40AF"@,
        CalendarEventType::OrderDelivery => "#4F46E5"@,
        CalendarEventType::WarehouseDelivery => "#F59E0B"@,
        CalendarEventType::ShipDelivery => "#10B981"@,
    }
}

impl CalendarEventType {
    /// The Turkish label of this event kind.
    pub fn display_name(&self) -> (r: &'static str)
        ensures
            r@ == calendar_label(*self),
    {
        match self {
            CalendarEventType::ShipVisit => "Gemi Ziyareti",
            CalendarEventType::OrderDelivery => "Sipariş Teslimatı",
            CalendarEventType::WarehouseDelivery => "Depoya Teslimat",
            CalendarEventType::ShipDelivery => "Gemiye Teslimat",
        }
    }

    /// The hex colour the calendar draws this event kind in.
    pub fn color(&self) -> (r: &'static str)
        ensures
            r@ == calendar_color(*self),
    {
        match self {
            CalendarEventType::ShipVisit => "#1E40AF",
            CalendarEventType::OrderDelivery => "#4F46E5",
            CalendarEventType::WarehouseDelivery => "#F59E0B",
            CalendarEventType::ShipDelivery => "#10B981",
        }
    }
}

/// A commercial request for supplies, tied to one ship.
#[derive(Debug, Clone)]
pub struct Order {
    pub id: i32,
    pub order_number: String,
    pub ship_id: i32,
    pub ship_name: Option<String>,
    pub status: OrderStatus,
    pub delivery_port: Option<String>,
    pub notes: Option<String>,
    pub currency: String,
    pub created_at: String,
    pub updated_at: String,
}

/// One priced product within an order. Prices are counted in the minor unit
/// of `currency`; the quantity in the smallest unit the item is counted in.
/// Buying and selling prices are independent: neither is derived from the other.
#[derive(Debug, Clone)]
pub struct OrderItem {
    pub id: i32,
    pub order_id: i32,
    pub product_name: String,
    pub impa_code: Option<String>,
    pub description: Option<String>,
    pub quantity: u32,
    pub unit: String,
    /// Cost per unit: what is paid to the supplier.
    pub buying_price: u32,
    /// Revenue per unit: what the customer is charged.
    pub selling_price: u32,
    pub currency: String,
    pub delivery_type: DeliveryType,
    pub warehouse_delivery_date: Option<String>,
    pub ship_delivery_date: Option<String>,
    pub notes: Option<String>,
}

/// Profit figures of one line item. Amounts are exact; the margin is in
/// hundredths of a percent, rounded toward zero.
#[derive(Debug, Clone, Copy, PartialEq, Eq, Structural)]
pub struct ItemProfit {
    pub total_cost: i128,
    pub total_revenue: i128,
    pub gross_profit: i128,
    pub margin_basis_points: Option<i128>,
}

/// Totals of one order.
#[derive(Debug, Clone)]
pub struct OrderTotals {
    pub item_count: usize,
    pub total_cost: i128,
    pub total_revenue: i128,
    pub gross_profit: i128,
    pub margin_basis_points: Option<i128>,
    pub currency: String,
}

/// An order with its line items and their totals.
#[derive(Debug, Clone)]
pub struct OrderWithItems {
    pub order: Order,
    pub items: Vec<OrderItem>,
    pub totals: OrderTotals,
}

/// Dashboard summary over all orders that are not cancelled.
#[derive(Debug, Clone)]
pub struct ProfitSummary {
    pub total_orders: usize,
    pub total_revenue: i128,
    pub total_cost: i128,
    pub total_profit: i128,
    pub average_margin_basis_points: Option<i128>,
    pub currency: String,
}

/// One row of the profitability ranking.
#[derive(Debug, Clone)]
pub struct OrderProfitInfo {
    pub order_id: i32,
    pub order_number: String,
    pub ship_name: String,
    pub total_revenue: i128,
    pub total_cost: i128,
    pub profit: i128,
    pub margin_basis_points: Option<i128>,
    pub currency: String,
}

/// A request to move an order to another status.
#[derive(Debug, Clone, Copy, PartialEq, Eq, Structural)]
pub struct UpdateStatusRequest {
    pub status: OrderStatus,
}

/// The on-hand quantity of one catalog item.
#[derive(Debug, Clone)]
pub struct Stock {
    pub id: i32,
    pub supply_item_id: i32,
    pub supply_item_name: Option<String>,
    pub quantity: u64,
    pub unit: String,
    pub warehouse_location: Option<String>,
    pub minimum_quantity: u64,
    pub last_updated: String,
}

/// An immutable ledger entry: one event that changed a stock quantity.
#[derive(Debug, Clone)]
pub struct StockMovement {
    pub id: i32,
    pub stock_id: i32,
    pub supply_item_name: Option<String>,
    pub movement_type: StockMovementType,
    pub quantity: u64,
    pub unit: String,
    pub reference_type: Option<String>,
    pub reference_id: Option<i32>,
    pub reference_info: Option<String>,
    pub notes: Option<String>,
    pub created_at: String,
}

/// A stock with its movement history.
#[derive(Debug, Clone)]
pub struct StockWithMovements {
    pub stock: Stock,
    pub movements: Vec<StockMovement>,
}

/// A request to record a movement. The quantity is signed so that a negative
/// input can be reported rather than coerced.
#[derive(Debug, Clone)]
pub struct CreateStockMovementRequest {
    pub stock_id: i32,
    pub movement_type: StockMovementType,
    pub quantity: i64,
    pub reference_type: Option<String>,
    pub reference_id: Option<i32>,
    pub reference_info: Option<String>,
    pub notes: Option<String>,
}

/// Dashboard summary of the warehouse. The value is the on-hand quantity
/// times the catalog unit price, summed over the stocks.
#[derive(Debug, Clone)]
pub struct StockSummary {
    pub total_items: usize,
    pub low_stock_count: usize,
    pub out_of_stock_count: usize,
    pub total_value: u128,
    pub currency: String,
}

/// A supplier of goods.
#[derive(Debug, Clone)]
pub struct Supplier {
    pub id: i32,
    pub name: String,
    pub contact_person: Option<String>,
    pub email: Option<String>,
    pub phone: Option<String>,
    pub address: Option<String>,
    pub country: Option<String>,
    pub category: String,
    pub is_active: bool,
    pub created_at: String,
    pub updated_at: String,
}

/// A request to plan a ship's port call.
#[derive(Debug, Clone)]
pub struct CreateShipVisitRequest {
    pub ship_id: i32,
    pub port_id: i32,
    pub eta: String,
    pub etd: String,
    pub agent_info: Option<String>,
    pub notes: Option<String>,
}

/// One entry of the calendar view.
#[derive(Debug, Clone)]
pub struct CalendarEvent {
    pub id: String,
    pub event_type: CalendarEventType,
    pub title: String,
    pub subtitle: Option<String>,
    pub start_date: String,
    pub end_date: String,
    pub color: String,
    pub status: String,
    pub related_ship_id: Option<i32>,
    pub related_port_id: Option<i32>,
    pub related_order_id: Option<i32>,
    pub metadata: Option<String>,
}

} // verus!
