//! Recurring investments: plans, the days on which they are carried out, and the messages of the
//! bank that report what was invested.
pub mod confirm;
pub mod due;
pub mod execution;
pub mod inbox;
pub mod messages;
pub mod page;
pub mod plans;
pub mod preview;
pub mod sms;
pub mod trading;

pub use confirm::{confirm_sms_transfer, SmsConfirmFormData};
pub use due::{run_due, RunDueResponse};
pub use execution::{execute_manual, ManualExecuteFormData};
pub use inbox::{process_pending_sms, receive_sms, SmsProcessResponse, SmsWebhookResponse};
pub use page::{list, InvestmentsQuery};
pub use plans::{create, delete, edit_form, new_form, toggle, update, InvestmentFormData};
pub use preview::{smart_preview, SmartPreviewQuery, SmartPreviewResponse};
pub use sms::SmsWebhookData;
pub use trading::{create_closed_day, delete_closed_day, ClosedDayFormData};
