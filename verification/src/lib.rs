//! A non-fungible token registry: who owns which token, how many tokens each
//! account holds, and who may move a token on its owner's behalf.
//!
//! [`NFToken`] is the registry. Accounts mint tokens, transfer them, and
//! approve a delegate to transfer a token for them; each call names the
//! account that makes it. A call either is done, and then reports one
//! [`Event`], or changes nothing. [`NFToken::dispatch`] takes any [`Call`]
//! and tells why one was not done.
//!
//! What the registry holds is described by [`Registry`], a mathematical
//! value, and every operation by what it makes of that value. The module
//! [`laws`] proves what holds of every registry that was deployed and then
//! used in any way: no token has two owners, each balance is the number of
//! tokens held, an owner needs no approval, and a token has only the
//! delegate approved last.

pub mod account;
pub mod call;
pub mod event;
pub mod laws;
pub mod model;
pub mod nftoken;

pub use account::{AccountId, Balance};
pub use call::{Call, Error};
pub use event::Event;
pub use model::Registry;
pub use nftoken::NFToken;
