//! The operational logs kept beside the ports: inspections, traffic reports,
//! emergencies, maintenance, resources and customs documents.
//!
//! Each kind is stored under a key that is one of its own fields, and a new
//! entry replaces the one stored under the same key.
use crate::record::{Record, LONG_RECORD_BYTES, SHORT_RECORD_BYTES};
use crate::row::{Row, RowView};
use vstd::prelude::*;

verus! {

/// The number that stands for a yes or a no in a row.
pub open spec fn flag(yes: bool) -> u64 {
    if yes {
        1
    } else {
        0
    }
}

/// The findings of one inspection of a ship, stored under the ship.
#[derive(Clone, Debug, PartialEq, Eq, Default)]
pub struct InspectionDetails {
    pub port_id: u64,
    pub ship_id: u64,
    pub inspection_date: u64,
    pub findings: String,
    pub inspector_notes: String,
}

/// What a value of `InspectionDetails` holds.
pub struct InspectionDetailsView {
    pub port_id: u64,
    pub ship_id: u64,
    pub inspection_date: u64,
    pub findings: Seq<char>,
    pub inspector_notes: Seq<char>,
}

impl View for InspectionDetails {
    type V = InspectionDetailsView;

    open spec fn view(&self) -> InspectionDetailsView {
        InspectionDetailsView {
            port_id: self.port_id,
            ship_id: self.ship_id,
            inspection_date: self.inspection_date,
            findings: self.findings@,
            inspector_notes: self.inspector_notes@,
        }
    }
}

impl Record for InspectionDetails {
    open spec fn bound() -> nat {
        LONG_RECORD_BYTES as nat
    }

    proof fn lemma_bound() {
    }

    fn max_bytes() -> usize {
        LONG_RECORD_BYTES
    }

    open spec fn key_of(v: InspectionDetailsView) -> u64 {
        v.ship_id
    }

    open spec fn row_of(v: InspectionDetailsView) -> RowView {
        RowView {
            nums: seq![v.port_id, v.inspection_date],
            first: v.findings,
            second: v.inspector_notes,
        }
    }

    open spec fn of_row(key: u64, row: RowView) -> Option<InspectionDetailsView> {
        if row.nums.len() == 2 {
            Some(
                InspectionDetailsView {
                    port_id: row.nums[0],
                    ship_id: key,
                    inspection_date: row.nums[1],
                    findings: row.first,
                    inspector_notes: row.second,
                },
            )
        } else {
            None
        }
    }

    proof fn lemma_row_round_trip(v: InspectionDetailsView) {
    }

    proof fn lemma_key_kept(key: u64, row: RowView) {
    }

    proof fn lemma_row_kept(key: u64, row: RowView) {
        if Self::of_row(key, row) is Some {
            let back = Self::row_of(Self::of_row(key, row).unwrap());
            assert(back.nums =~= row.nums);
            assert(back.first =~= row.first);
            assert(back.second =~= row.second);
        }
    }

    fn key(&self) -> u64 {
        self.ship_id
    }

    fn to_row(&self) -> Row {
        let mut nums: Vec<u64> = Vec::new();
        nums.push(self.port_id);
        nums.push(self.inspection_date);
        let row = Row { nums, first: self.findings.clone(), second: self.inspector_notes.clone() };
        assert(row@.nums =~= Self::row_of(self@).nums);
        assert(row@.first =~= Self::row_of(self@).first);
        assert(row@.second =~= Self::row_of(self@).second);
        row
    }

    fn from_row(key: u64, row: Row) -> Option<InspectionDetails> {
        let Row { nums, first, second } = row;
        if nums.len() != 2 {
            return None;
        }
        Some(
            InspectionDetails {
                port_id: nums[0],
                ship_id: key,
                inspection_date: nums[1],
                findings: first,
                inspector_notes: second,
            },
        )
    }
}

/// The arrivals and departures of a port over a span of time, stored under the port.
#[derive(Clone, Debug, PartialEq, Eq, Default)]
pub struct PortTrafficReport {
    pub port_id: u64,
    pub start_date: u64,
    pub end_date: u64,
    pub total_arrivals: u32,
    pub total_departures: u32,
}

/// What a value of `PortTrafficReport` holds.
pub struct PortTrafficReportView {
    pub port_id: u64,
    pub start_date: u64,
    pub end_date: u64,
    pub total_arrivals: u32,
    pub total_departures: u32,
}

impl View for PortTrafficReport {
    type V = PortTrafficReportView;

    open spec fn view(&self) -> PortTrafficReportView {
        PortTrafficReportView {
            port_id: self.port_id,
            start_date: self.start_date,
            end_date: self.end_date,
            total_arrivals: self.total_arrivals,
            total_departures: self.total_departures,
        }
    }
}

impl Record for PortTrafficReport {
    open spec fn bound() -> nat {
        SHORT_RECORD_BYTES as nat
    }

    proof fn lemma_bound() {
    }

    fn max_bytes() -> usize {
        SHORT_RECORD_BYTES
    }

    open spec fn key_of(v: PortTrafficReportView) -> u64 {
        v.port_id
    }

    open spec fn row_of(v: PortTrafficReportView) -> RowView {
        RowView {
            nums: seq![
                v.start_date,
                v.end_date,
                v.total_arrivals as u64,
                v.total_departures as u64,
            ],
            first: Seq::empty(),
            second: Seq::empty(),
        }
    }

    open spec fn of_row(key: u64, row: RowView) -> Option<PortTrafficReportView> {
        if row.nums.len() == 4 && row.nums[2] <= u32::MAX && row.nums[3] <= u32::MAX
            && row.first.len() == 0 && row.second.len() == 0 {
            Some(
                PortTrafficReportView {
                    port_id: key,
                    start_date: row.nums[0],
                    end_date: row.nums[1],
                    total_arrivals: row.nums[2] as u32,
                    total_departures: row.nums[3] as u32,
                },
            )
        } else {
            None
        }
    }

    proof fn lemma_row_round_trip(v: PortTrafficReportView) {
    }

    proof fn lemma_key_kept(key: u64, row: RowView) {
    }

    proof fn lemma_row_kept(key: u64, row: RowView) {
        if Self::of_row(key, row) is Some {
            let back = Self::row_of(Self::of_row(key, row).unwrap());
            assert(back.nums =~= row.nums);
            assert(back.first =~= row.first);
            assert(back.second =~= row.second);
        }
    }

    fn key(&self) -> u64 {
        self.port_id
    }

    fn to_row(&self) -> Row {
        let mut nums: Vec<u64> = Vec::new();
        nums.push(self.start_date);
        nums.push(self.end_date);
        nums.push(self.total_arrivals as u64);
        nums.push(self.total_departures as u64);
        let row = Row { nums, first: String::new(), second: String::new() };
        assert(row@.nums =~= Self::row_of(self@).nums);
        assert(row@.first =~= Self::row_of(self@).first);
        assert(row@.second =~= Self::row_of(self@).second);
        row
    }

    fn from_row(key: u64, row: Row) -> Option<PortTrafficReport> {
        let Row { nums, first, second } = row;
        if nums.len() != 4 || nums[2] > 0xffff_ffff || nums[3] > 0xffff_ffff
            || !first.as_str().is_empty() || !second.as_str().is_empty() {
            return None;
        }
        Some(
            PortTrafficReport {
                port_id: key,
                start_date: nums[0],
                end_date: nums[1],
                total_arrivals: nums[2] as u32,
                total_departures: nums[3] as u32,
            },
        )
    }
}

/// The latest emergency reported for a port, stored under the port.
#[derive(Clone, Debug, PartialEq, Eq, Default)]
pub struct EmergencyDetails {
    pub port_id: u64,
    pub emergency_type: String,
    pub description: String,
    pub timestamp: u64,
}

/// What a value of `EmergencyDetails` holds.
pub struct EmergencyDetailsView {
    pub port_id: u64,
    pub emergency_type: Seq<char>,
    pub description: Seq<char>,
    pub timestamp: u64,
}

impl View for EmergencyDetails {
    type V = EmergencyDetailsView;

    open spec fn view(&self) -> EmergencyDetailsView {
        EmergencyDetailsView {
            port_id: self.port_id,
            emergency_type: self.emergency_type@,
            description: self.description@,
            timestamp: self.timestamp,
        }
    }
}

impl Record for EmergencyDetails {
    open spec fn bound() -> nat {
        SHORT_RECORD_BYTES as nat
    }

    proof fn lemma_bound() {
    }

    fn max_bytes() -> usize {
        SHORT_RECORD_BYTES
    }

    open spec fn key_of(v: EmergencyDetailsView) -> u64 {
        v.port_id
    }

    open spec fn row_of(v: EmergencyDetailsView) -> RowView {
        RowView {
            nums: seq![v.timestamp],
            first: v.emergency_type,
            second: v.description,
        }
    }

    open spec fn of_row(key: u64, row: RowView) -> Option<EmergencyDetailsView> {
        if row.nums.len() == 1 {
            Some(
                EmergencyDetailsView {
                    port_id: key,
                    emergency_type: row.first,
                    description: row.second,
                    timestamp: row.nums[0],
                },
            )
        } else {
            None
        }
    }

    proof fn lemma_row_round_trip(v: EmergencyDetailsView) {
    }

    proof fn lemma_key_kept(key: u64, row: RowView) {
    }

    proof fn lemma_row_kept(key: u64, row: RowView) {
        if Self::of_row(key, row) is Some {
            let back = Self::row_of(Self::of_row(key, row).unwrap());
            assert(back.nums =~= row.nums);
            assert(back.first =~= row.first);
            assert(back.second =~= row.second);
        }
    }

    fn key(&self) -> u64 {
        self.port_id
    }

    fn to_row(&self) -> Row {
        let mut nums: Vec<u64> = Vec::new();
        nums.push(self.timestamp);
        let row = Row {
            nums,
            first: self.emergency_type.clone(),
            second: self.description.clone(),
        };
        assert(row@.nums =~= Self::row_of(self@).nums);
        assert(row@.first =~= Self::row_of(self@).first);
        assert(row@.second =~= Self::row_of(self@).second);
        row
    }

    fn from_row(key: u64, row: Row) -> Option<EmergencyDetails> {
        let Row { nums, first, second } = row;
        if nums.len() != 1 {
            return None;
        }
        Some(
            EmergencyDetails {
                port_id: key,
                emergency_type: first,
                description: second,
                timestamp: nums[0],
            },
        )
    }
}

/// One planned maintenance, stored under its own number.
#[derive(Clone, Debug, PartialEq, Eq, Default)]
pub struct MaintenanceDetails {
    pub port_id: u64,
    pub maintenance_id: u64,
    pub description: String,
    pub scheduled_time: u64,
    pub duration_hours: u32,
}

/// What a value of `MaintenanceDetails` holds.
pub struct MaintenanceDetailsView {
    pub port_id: u64,
    pub maintenance_id: u64,
    pub description: Seq<char>,
    pub scheduled_time: u64,
    pub duration_hours: u32,
}

impl View for MaintenanceDetails {
    type V = MaintenanceDetailsView;

    open spec fn view(&self) -> MaintenanceDetailsView {
        MaintenanceDetailsView {
            port_id: self.port_id,
            maintenance_id: self.maintenance_id,
            description: self.description@,
            scheduled_time: self.scheduled_time,
            duration_hours: self.duration_hours,
        }
    }
}

impl Record for MaintenanceDetails {
    open spec fn bound() -> nat {
        LONG_RECORD_BYTES as nat
    }

    proof fn lemma_bound() {
    }

    fn max_bytes() -> usize {
        LONG_RECORD_BYTES
    }

    open spec fn key_of(v: MaintenanceDetailsView) -> u64 {
        v.maintenance_id
    }

    open spec fn row_of(v: MaintenanceDetailsView) -> RowView {
        RowView {
            nums: seq![v.port_id, v.scheduled_time, v.duration_hours as u64],
            first: v.description,
            second: Seq::empty(),
        }
    }

    open spec fn of_row(key: u64, row: RowView) -> Option<MaintenanceDetailsView> {
        if row.nums.len() == 3 && row.nums[2] <= u32::MAX && row.second.len() == 0 {
            Some(
                MaintenanceDetailsView {
                    port_id: row.nums[0],
                    maintenance_id: key,
                    description: row.first,
                    scheduled_time: row.nums[1],
                    duration_hours: row.nums[2] as u32,
                },
            )
        } else {
            None
        }
    }

    proof fn lemma_row_round_trip(v: MaintenanceDetailsView) {
    }

    proof fn lemma_key_kept(key: u64, row: RowView) {
    }

    proof fn lemma_row_kept(key: u64, row: RowView) {
        if Self::of_row(key, row) is Some {
            let back = Self::row_of(Self::of_row(key, row).unwrap());
            assert(back.nums =~= row.nums);
            assert(back.first =~= row.first);
            assert(back.second =~= row.second);
        }
    }

    fn key(&self) -> u64 {
        self.maintenance_id
    }

    fn to_row(&self) -> Row {
        let mut nums: Vec<u64> = Vec::new();
        nums.push(self.port_id);
        nums.push(self.scheduled_time);
        nums.push(self.duration_hours as u64);
        let row = Row { nums, first: self.description.clone(), second: String::new() };
        assert(row@.nums =~= Self::row_of(self@).nums);
        assert(row@.first =~= Self::row_of(self@).first);
        assert(row@.second =~= Self::row_of(self@).second);
        row
    }

    fn from_row(key: u64, row: Row) -> Option<MaintenanceDetails> {
        let Row { nums, first, second } = row;
        if nums.len() != 3 || nums[2] > 0xffff_ffff || !second.as_str().is_empty() {
            return None;
        }
        Some(
            MaintenanceDetails {
                port_id: nums[0],
                maintenance_id: key,
                description: first,
                scheduled_time: nums[1],
                duration_hours: nums[2] as u32,
            },
        )
    }
}

/// Whether a resource of a port is available, stored under the resource.
#[derive(Clone, Debug, PartialEq, Eq, Default)]
pub struct ResourceUpdate {
    pub port_id: u64,
    pub resource_id: u64,
    pub resource_type: String,
    pub available: bool,
    pub last_updated: u64,
}

/// What a value of `ResourceUpdate` holds.
pub struct ResourceUpdateView {
    pub port_id: u64,
    pub resource_id: u64,
    pub resource_type: Seq<char>,
    pub available: bool,
    pub last_updated: u64,
}

impl View for ResourceUpdate {
    type V = ResourceUpdateView;

    open spec fn view(&self) -> ResourceUpdateView {
        ResourceUpdateView {
            port_id: self.port_id,
            resource_id: self.resource_id,
            resource_type: self.resource_type@,
            available: self.available,
            last_updated: self.last_updated,
        }
    }
}

impl Record for ResourceUpdate {
    open spec fn bound() -> nat {
        LONG_RECORD_BYTES as nat
    }

    proof fn lemma_bound() {
    }

    fn max_bytes() -> usize {
        LONG_RECORD_BYTES
    }

    open spec fn key_of(v: ResourceUpdateView) -> u64 {
        v.resource_id
    }

    open spec fn row_of(v: ResourceUpdateView) -> RowView {
        RowView {
            nums: seq![v.port_id, flag(v.available), v.last_updated],
            first: v.resource_type,
            second: Seq::empty(),
        }
    }

    open spec fn of_row(key: u64, row: RowView) -> Option<ResourceUpdateView> {
        if row.nums.len() == 3 && row.nums[1] <= 1 && row.second.len() == 0 {
            Some(
                ResourceUpdateView {
                    port_id: row.nums[0],
                    resource_id: key,
                    resource_type: row.first,
                    available: row.nums[1] == 1,
                    last_updated: row.nums[2],
                },
            )
        } else {
            None
        }
    }

    proof fn lemma_row_round_trip(v: ResourceUpdateView) {
    }

    proof fn lemma_key_kept(key: u64, row: RowView) {
    }

    proof fn lemma_row_kept(key: u64, row: RowView) {
        if Self::of_row(key, row) is Some {
            let back = Self::row_of(Self::of_row(key, row).unwrap());
            assert(back.nums =~= row.nums);
            assert(back.first =~= row.first);
            assert(back.second =~= row.second);
        }
    }

    fn key(&self) -> u64 {
        self.resource_id
    }

    fn to_row(&self) -> Row {
        let mut nums: Vec<u64> = Vec::new();
        nums.push(self.port_id);
        let available: u64 = if self.available {
            1
        } else {
            0
        };
        nums.push(available);
        nums.push(self.last_updated);
        let row = Row { nums, first: self.resource_type.clone(), second: String::new() };
        assert(row@.nums =~= Self::row_of(self@).nums);
        assert(row@.first =~= Self::row_of(self@).first);
        assert(row@.second =~= Self::row_of(self@).second);
        row
    }

    fn from_row(key: u64, row: Row) -> Option<ResourceUpdate> {
        let Row { nums, first, second } = row;
        if nums.len() != 3 || nums[1] > 1 || !second.as_str().is_empty() {
            return None;
        }
        Some(
            ResourceUpdate {
                port_id: nums[0],
                resource_id: key,
                resource_type: first,
                available: nums[1] == 1,
                last_updated: nums[2],
            },
        )
    }
}

/// One customs document, stored under its own number.
#[derive(Clone, Debug, PartialEq, Eq, Default)]
pub struct DocumentDetails {
    pub document_id: u64,
    pub ship_id: u64,
    pub port_id: u64,
    pub document_type: String,
    pub content: String,
    pub timestamp: u64,
}

/// What a value of `DocumentDetails` holds.
pub struct DocumentDetailsView {
    pub document_id: u64,
    pub ship_id: u64,
    pub port_id: u64,
    pub document_type: Seq<char>,
    pub content: Seq<char>,
    pub timestamp: u64,
}

impl View for DocumentDetails {
    type V = DocumentDetailsView;

    open spec fn view(&self) -> DocumentDetailsView {
        DocumentDetailsView {
            document_id: self.document_id,
            ship_id: self.ship_id,
            port_id: self.port_id,
            document_type: self.document_type@,
            content: self.content@,
            timestamp: self.timestamp,
        }
    }
}

impl Record for DocumentDetails {
    open spec fn bound() -> nat {
        LONG_RECORD_BYTES as nat
    }

    proof fn lemma_bound() {
    }

    fn max_bytes() -> usize {
        LONG_RECORD_BYTES
    }

    open spec fn key_of(v: DocumentDetailsView) -> u64 {
        v.document_id
    }

    open spec fn row_of(v: DocumentDetailsView) -> RowView {
        RowView {
            nums: seq![v.ship_id, v.port_id, v.timestamp],
            first: v.document_type,
            second: v.content,
        }
    }

    open spec fn of_row(key: u64, row: RowView) -> Option<DocumentDetailsView> {
        if row.nums.len() == 3 {
            Some(
                DocumentDetailsView {
                    document_id: key,
                    ship_id: row.nums[0],
                    port_id: row.nums[1],
                    document_type: row.first,
                    content: row.second,
                    timestamp: row.nums[2],
                },
            )
        } else {
            None
        }
    }

    proof fn lemma_row_round_trip(v: DocumentDetailsView) {
    }

    proof fn lemma_key_kept(key: u64, row: RowView) {
    }

    proof fn lemma_row_kept(key: u64, row: RowView) {
        if Self::of_row(key, row) is Some {
            let back = Self::row_of(Self::of_row(key, row).unwrap());
            assert(back.nums =~= row.nums);
            assert(back.first =~= row.first);
            assert(back.second =~= row.second);
        }
    }

    fn key(&self) -> u64 {
        self.document_id
    }

    fn to_row(&self) -> Row {
        let mut nums: Vec<u64> = Vec::new();
        nums.push(self.ship_id);
        nums.push(self.port_id);
        nums.push(self.timestamp);
        let row = Row { nums, first: self.document_type.clone(), second: self.content.clone() };
        assert(row@.nums =~= Self::row_of(self@).nums);
        assert(row@.first =~= Self::row_of(self@).first);
        assert(row@.second =~= Self::row_of(self@).second);
        row
    }

    fn from_row(key: u64, row: Row) -> Option<DocumentDetails> {
        let Row { nums, first, second } = row;
        if nums.len() != 3 {
            return None;
        }
        Some(
            DocumentDetails {
                document_id: key,
                ship_id: nums[0],
                port_id: nums[1],
                document_type: first,
                content: second,
                timestamp: nums[2],
            },
        )
    }
}

/// What a caller supplies to log an inspection.
#[derive(Clone, Debug, PartialEq, Eq, Default)]
pub struct InspectionPayload {
    pub ship_id: u64,
    pub inspection_date: u64,
    pub findings: String,
    pub inspector_notes: String,
}

/// What a caller supplies to ask for a traffic report.
#[derive(Clone, Debug, PartialEq, Eq, Default)]
pub struct TrafficAnalysisPayload {
    pub port_id: u64,
    pub start_date: u64,
    pub end_date: u64,
}

/// What a caller supplies to report an emergency.
#[derive(Clone, Debug, PartialEq, Eq, Default)]
pub struct EmergencyDispatchPayload {
    pub port_id: u64,
    pub emergency_type: String,
    pub description: String,
}

/// What a caller supplies to log a maintenance.
#[derive(Clone, Debug, PartialEq, Eq, Default)]
pub struct MaintenanceLogPayload {
    pub port_id: u64,
    pub description: String,
    pub scheduled_time: u64,
    pub duration_hours: u32,
}

/// What a caller supplies to report on a resource.
#[derive(Clone, Debug, PartialEq, Eq, Default)]
pub struct ResourceUpdatePayload {
    pub port_id: u64,
    pub resource_id: u64,
    pub resource_type: String,
    pub available: bool,
}

/// What a caller supplies to log a customs document.
#[derive(Clone, Debug, PartialEq, Eq, Default)]
pub struct DocumentLogPayload {
    pub ship_id: u64,
    pub port_id: u64,
    pub document_type: String,
    pub content: String,
}

impl InspectionPayload {
    /// The inspection that this payload reports for the port `port_id`.
    pub open spec fn details(&self, port_id: u64) -> InspectionDetailsView {
        InspectionDetailsView {
            port_id,
            ship_id: self.ship_id,
            inspection_date: self.inspection_date,
            findings: self.findings@,
            inspector_notes: self.inspector_notes@,
        }
    }

    /// Makes the inspection that this payload reports for the port `port_id`.
    pub fn into_details(self, port_id: u64) -> (r: InspectionDetails)
        ensures
            r@ == self.details(port_id),
    {
        InspectionDetails {
            port_id,
            ship_id: self.ship_id,
            inspection_date: self.inspection_date,
            findings: self.findings,
            inspector_notes: self.inspector_notes,
        }
    }
}

impl EmergencyDispatchPayload {
    /// The emergency that this payload reports at the time `now`.
    pub open spec fn details(&self, now: u64) -> EmergencyDetailsView {
        EmergencyDetailsView {
            port_id: self.port_id,
            emergency_type: self.emergency_type@,
            description: self.description@,
            timestamp: now,
        }
    }

    /// Makes the emergency that this payload reports at the time `now`.
    pub fn into_details(self, now: u64) -> (r: EmergencyDetails)
        ensures
            r@ == self.details(now),
    {
        EmergencyDetails {
            port_id: self.port_id,
            emergency_type: self.emergency_type,
            description: self.description,
            timestamp: now,
        }
    }
}

impl MaintenanceLogPayload {
    /// The maintenance that this payload logs at the time `now`, which
    /// becomes its number.
    pub open spec fn details(&self, now: u64) -> MaintenanceDetailsView {
        MaintenanceDetailsView {
            port_id: self.port_id,
            maintenance_id: now,
            description: self.description@,
            scheduled_time: self.scheduled_time,
            duration_hours: self.duration_hours,
        }
    }

    /// Makes the maintenance that this payload logs at the time `now`.
    pub fn into_details(self, now: u64) -> (r: MaintenanceDetails)
        ensures
            r@ == self.details(now),
    {
        MaintenanceDetails {
            port_id: self.port_id,
            maintenance_id: now,
            description: self.description,
            scheduled_time: self.scheduled_time,
            duration_hours: self.duration_hours,
        }
    }
}

impl ResourceUpdatePayload {
    /// The report on a resource that this payload makes at the time `now`.
    pub open spec fn details(&self, now: u64) -> ResourceUpdateView {
        ResourceUpdateView {
            port_id: self.port_id,
            resource_id: self.resource_id,
            resource_type: self.resource_type@,
            available: self.available,
            last_updated: now,
        }
    }

    /// Makes the report on a resource that this payload makes at the time
    /// `now`.
    pub fn into_details(self, now: u64) -> (r: ResourceUpdate)
        ensures
            r@ == self.details(now),
    {
        ResourceUpdate {
            port_id: self.port_id,
            resource_id: self.resource_id,
            resource_type: self.resource_type,
            available: self.available,
            last_updated: now,
        }
    }
}

impl DocumentLogPayload {
    /// The document that this payload logs at the time `now`, which becomes
    /// its number.
    pub open spec fn details(&self, now: u64) -> DocumentDetailsView {
        DocumentDetailsView {
            document_id: now,
            ship_id: self.ship_id,
            port_id: self.port_id,
            document_type: self.document_type@,
            content: self.content@,
            timestamp: now,
        }
    }

    /// Makes the document that this payload logs at the time `now`.
    pub fn into_details(self, now: u64) -> (r: DocumentDetails)
        ensures
            r@ == self.details(now),
    {
        DocumentDetails {
            document_id: now,
            ship_id: self.ship_id,
            port_id: self.port_id,
            document_type: self.document_type,
            content: self.content,
            timestamp: now,
        }
    }
}

} // verus!
