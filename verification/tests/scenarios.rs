//! End-to-end scenarios against a small in-memory executor that speaks the
//! byte protocol: mint, transfer and burn items, then look their owners up.

use std::collections::HashMap;

use call_bridge::adapter::{
    burn_request, burn_result, mint_into_request, mint_into_result, owner_request, owner_result,
    transfer_request, transfer_result,
};
use call_bridge::bridge::{CallOutcome, CallRequest};
use call_bridge::types::{AccountId, Error};

fn account(fill: u8) -> AccountId {
    AccountId([fill; 32])
}

/// A stand-in executor holding item ownership in memory. It parses each
/// payload exactly as the protocol table defines it, so a malformed payload
/// from the library would trap rather than be acted on.
struct MemoryExecutor {
    owners: HashMap<u32, AccountId>,
    trapped: bool,
}

impl MemoryExecutor {
    fn new() -> Self {
        MemoryExecutor { owners: HashMap::new(), trapped: false }
    }

    fn trapping() -> Self {
        MemoryExecutor { owners: HashMap::new(), trapped: true }
    }

    fn call(&mut self, request: CallRequest) -> CallOutcome {
        if self.trapped {
            return CallOutcome::Failure;
        }
        let p = &request.payload;
        if p.len() < 4 {
            return CallOutcome::Failure;
        }
        let selector = [p[0], p[1], p[2], p[3]];
        let body = &p[4..];
        match selector {
            // owner-of: item id
            [0x56, 0x66, 0x07, 0x08] => {
                if body.len() != 4 {
                    return CallOutcome::Failure;
                }
                let item = u32::from_le_bytes(body.try_into().unwrap());
                let data = match self.owners.get(&item) {
                    Some(owner) => {
                        let mut d = vec![0x01];
                        d.extend_from_slice(&owner.0);
                        d
                    }
                    None => vec![0x00],
                };
                CallOutcome::Success { data }
            }
            // mint: recipient, item id
            [0x01, 0x02, 0x03, 0x04] => {
                if body.len() != 36 {
                    return CallOutcome::Failure;
                }
                let mut recipient = [0u8; 32];
                recipient.copy_from_slice(&body[..32]);
                let item = u32::from_le_bytes(body[32..].try_into().unwrap());
                self.owners.insert(item, AccountId(recipient));
                CallOutcome::Success { data: vec![] }
            }
            // burn: item id
            [0x04, 0x03, 0x02, 0x01] => {
                if body.len() != 4 {
                    return CallOutcome::Failure;
                }
                let item = u32::from_le_bytes(body.try_into().unwrap());
                self.owners.remove(&item);
                CallOutcome::Success { data: vec![] }
            }
            // transfer: destination, item id
            [0x05, 0x06, 0x07, 0x08] => {
                if body.len() != 36 {
                    return CallOutcome::Failure;
                }
                let mut destination = [0u8; 32];
                destination.copy_from_slice(&body[..32]);
                let item = u32::from_le_bytes(body[32..].try_into().unwrap());
                self.owners.insert(item, AccountId(destination));
                CallOutcome::Success { data: vec![] }
            }
            _ => CallOutcome::Failure,
        }
    }
}

fn lookup_owner(
    executor: &mut MemoryExecutor,
    caller: &AccountId,
    collection: &AccountId,
    item: u32,
) -> Result<Option<AccountId>, Error> {
    let request = owner_request(caller, collection, item, u64::MAX);
    owner_result(executor.call(request))
}

#[test]
fn minted_item_is_owned_by_the_recipient() {
    let collection = account(0xC0);
    let recipient = account(0x0A);
    let caller = account(0x01);
    let mut executor = MemoryExecutor::new();

    let request = mint_into_request(&collection, 42, &recipient, u64::MAX);
    let minted = mint_into_result(executor.call(request));
    assert_eq!(minted, Ok(()));

    assert_eq!(lookup_owner(&mut executor, &caller, &collection, 42), Ok(Some(recipient)));
    assert_eq!(lookup_owner(&mut executor, &caller, &collection, 43), Ok(None));
}

#[test]
fn rejected_mint_reports_dispatch_failure() {
    let collection = account(0xC0);
    let recipient = account(0x0A);
    let mut executor = MemoryExecutor::trapping();

    let request = mint_into_request(&collection, 42, &recipient, u64::MAX);
    let minted = mint_into_result(executor.call(request));
    assert_eq!(minted, Err(Error::DispatchFailure));
}

#[test]
fn transferred_item_is_owned_by_the_destination() {
    let collection = account(0xC0);
    let first = account(0x0A);
    let second = account(0x0B);
    let caller = account(0x01);
    let mut executor = MemoryExecutor::new();

    let request = mint_into_request(&collection, 7, &first, u64::MAX);
    assert_eq!(mint_into_result(executor.call(request)), Ok(()));

    let request = transfer_request(&first, &collection, 7, &second, u64::MAX);
    assert_eq!(transfer_result(executor.call(request)), Ok(()));

    assert_eq!(lookup_owner(&mut executor, &caller, &collection, 7), Ok(Some(second)));
}

#[test]
fn failed_transfer_reports_dispatch_failure() {
    let collection = account(0xC0);
    let first = account(0x0A);
    let second = account(0x0B);
    let mut executor = MemoryExecutor::trapping();

    let request = transfer_request(&first, &collection, 7, &second, u64::MAX);
    assert_eq!(transfer_result(executor.call(request)), Err(Error::DispatchFailure));
}

#[test]
fn burned_item_has_no_owner() {
    let collection = account(0xC0);
    let recipient = account(0x0A);
    let caller = account(0x01);
    let mut executor = MemoryExecutor::new();

    let request = mint_into_request(&collection, 9, &recipient, u64::MAX);
    assert_eq!(mint_into_result(executor.call(request)), Ok(()));

    let request = burn_request(&collection, 9, &recipient, u64::MAX);
    assert_eq!(burn_result(executor.call(request)), Ok(()));

    assert_eq!(lookup_owner(&mut executor, &caller, &collection, 9), Ok(None));
}

#[test]
fn failed_burn_reports_dispatch_failure() {
    let collection = account(0xC0);
    let recipient = account(0x0A);
    let mut executor = MemoryExecutor::trapping();

    let request = burn_request(&collection, 9, &recipient, u64::MAX);
    assert_eq!(burn_result(executor.call(request)), Err(Error::DispatchFailure));
}
