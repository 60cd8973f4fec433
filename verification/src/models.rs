//! The rows that the analytical store holds, and the chain values that they
//! are made from, as plain data.

use vstd::pervasive::unreached;
use vstd::prelude::*;
use vstd::utf8::encode_utf8;
use crate::format::{
    U256, byte4_from_input, format_bytes_slice, hex_bytes, hex_chars, is_prefixed_hex,
    leading_four,
};

verus! {

/// The envelope that a transaction came in.
#[derive(Clone, Copy, Debug, PartialEq, Eq, Structural)]
pub enum TransactionType {
    Legacy,
    Eip2930,
    Eip1559,
    Eip4844,
    Eip7702,
}

impl TransactionType {
    /// The number under which the type is stored.
    pub open spec fn spec_code(&self) -> u8 {
        match self {
            TransactionType::Legacy => 0,
            TransactionType::Eip2930 => 1,
            TransactionType::Eip1559 => 2,
            TransactionType::Eip4844 => 3,
            TransactionType::Eip7702 => 4,
        }
    }

    /// The number under which the type is stored.
    pub fn code(&self) -> (c: u8)
        ensures
            c == self.spec_code(),
    {
        match self {
            TransactionType::Legacy => 0,
            TransactionType::Eip2930 => 1,
            TransactionType::Eip1559 => 2,
            TransactionType::Eip4844 => 3,
            TransactionType::Eip7702 => 4,
        }
    }

    /// The type stored under a number, if there is one.
    pub fn from_code(c: u8) -> (t: Option<TransactionType>)
        ensures
            t.is_some() == (c <= 4),
            t.is_some() ==> t.unwrap().spec_code() == c,
    {
        if c == 0 {
            Some(TransactionType::Legacy)
        } else if c == 1 {
            Some(TransactionType::Eip2930)
        } else if c == 2 {
            Some(TransactionType::Eip1559)
        } else if c == 3 {
            Some(TransactionType::Eip4844)
        } else if c == 4 {
            Some(TransactionType::Eip7702)
        } else {
            None
        }
    }

    /// The type of a transaction from what its envelope says of itself; the
    /// first claim that holds decides, and a transaction with none is a
    /// legacy one.
    pub open spec fn spec_classify(
        is_eip1559: bool,
        is_eip2930: bool,
        is_eip4844: bool,
        is_eip7702: bool,
    ) -> TransactionType {
        if is_eip1559 {
            TransactionType::Eip1559
        } else if is_eip2930 {
            TransactionType::Eip2930
        } else if is_eip4844 {
            TransactionType::Eip4844
        } else if is_eip7702 {
            TransactionType::Eip7702
        } else {
            TransactionType::Legacy
        }
    }

    pub fn classify(is_eip1559: bool, is_eip2930: bool, is_eip4844: bool, is_eip7702: bool) -> (t:
        TransactionType)
        ensures
            t == Self::spec_classify(is_eip1559, is_eip2930, is_eip4844, is_eip7702),
    {
        if is_eip1559 {
            TransactionType::Eip1559
        } else if is_eip2930 {
            TransactionType::Eip2930
        } else if is_eip4844 {
            TransactionType::Eip4844
        } else if is_eip7702 {
            TransactionType::Eip7702
        } else {
            TransactionType::Legacy
        }
    }
}

/// Marks a 256-bit number that is stored as its thirty-two bytes, the least
/// significant first.
#[derive(Debug)]
pub struct SerU256(());

/// A contract and the transaction that created it.
#[derive(Debug)]
pub struct DatabaseContract {
    pub block_number: u64,
    pub chain: u64,
    pub contract_address: String,
    pub creator: String,
    pub transaction_hash: String,
}

/// What is known of a contract beyond its code.
#[derive(Debug)]
pub struct DatabaseContractMetadata {
    pub abi: String,
    pub chain: i64,
    pub contract_address: String,
    pub name: String,
}

/// A validator withdrawal.
#[derive(Debug)]
pub struct DatabaseWithdrawal {
    pub address: String,
    pub amount: u64,
    pub block_number: u64,
    pub chain: u64,
    pub timestamp: u64,
    pub validator_index: u64,
    pub withdrawal_index: u64,
}

/// A withdrawal as the chain reports it.
#[derive(Debug)]
pub struct ChainWithdrawal {
    pub address: String,
    pub amount: u64,
    pub index: u64,
    pub validator_index: u64,
}

/// What a receipt adds to a transaction.
#[derive(Debug)]
pub struct ChainReceipt {
    pub block_number: Option<u64>,
    pub contract_address: Option<String>,
    pub cumulative_gas_used: u64,
    pub effective_gas_price: u128,
    pub from: String,
    pub gas_used: u64,
    pub status: bool,
    pub transaction_hash: String,
}

impl DatabaseWithdrawal {
    /// The row of a withdrawal in a block of a chain.
    pub fn from_rpc(withdrawal: &ChainWithdrawal, chain: u64, block_number: u64, timestamp: u64) -> (row:
        DatabaseWithdrawal)
        ensures
            row.address == withdrawal.address,
            row.amount == withdrawal.amount,
            row.block_number == block_number,
            row.chain == chain,
            row.timestamp == timestamp,
            row.validator_index == withdrawal.validator_index,
            row.withdrawal_index == withdrawal.index,
    {
        DatabaseWithdrawal {
            address: withdrawal.address.clone(),
            amount: withdrawal.amount,
            block_number,
            chain,
            timestamp,
            validator_index: withdrawal.validator_index,
            withdrawal_index: withdrawal.index,
        }
    }
}

impl DatabaseContract {
    /// The row of the contract that a receipt reports as created. The
    /// receipt must name a block and a created contract.
    pub fn from_rpc(receipt: &ChainReceipt, chain: u64) -> (row: DatabaseContract)
        requires
            receipt.block_number.is_some(),
            receipt.contract_address.is_some(),
        ensures
            row.block_number == receipt.block_number.unwrap(),
            row.chain == chain,
            row.contract_address == receipt.contract_address.unwrap(),
            row.creator == receipt.from,
            row.transaction_hash == receipt.transaction_hash,
    {
        let contract_address = match &receipt.contract_address {
            Some(address) => address.clone(),
            None => unreached(),
        };
        let block_number: u64 = match receipt.block_number {
            Some(number) => number,
            None => unreached(),
        };
        DatabaseContract {
            block_number,
            chain,
            contract_address,
            creator: receipt.from.clone(),
            transaction_hash: receipt.transaction_hash.clone(),
        }
    }
}

/// A transaction, with what its receipt adds once that is known.
#[derive(Debug)]
pub struct DatabaseTransaction {
    pub access_list: Vec<(String, Vec<String>)>,
    pub base_fee_per_gas: Option<u64>,
    pub block_hash: String,
    pub block_number: u64,
    pub chain: u64,
    pub contract_created: Option<String>,
    pub cumulative_gas_used: Option<u64>,
    pub effective_gas_price: Option<u128>,
    pub from: String,
    pub gas_limit: u64,
    pub gas_price: Option<u128>,
    pub gas_used: Option<u64>,
    pub hash: String,
    pub input: String,
    pub max_fee_per_gas: u128,
    pub max_priority_fee_per_gas: Option<u128>,
    pub method: String,
    pub nonce: u64,
    pub status: Option<bool>,
    pub timestamp: u64,
    pub to: String,
    pub transaction_index: u64,
    pub transaction_type: TransactionType,
    pub value: U256,
}

/// A transaction as the chain reports it.
#[derive(Debug)]
pub struct ChainTransaction {
    pub access_list: Option<Vec<(String, Vec<String>)>>,
    pub block_hash: Option<String>,
    pub block_number: Option<u64>,
    pub from: String,
    pub gas_limit: u64,
    pub gas_price: Option<u128>,
    pub hash: String,
    pub input: String,
    pub is_eip1559: bool,
    pub is_eip2930: bool,
    pub is_eip4844: bool,
    pub is_eip7702: bool,
    pub max_fee_per_gas: u128,
    pub max_priority_fee_per_gas: Option<u128>,
    pub nonce: u64,
    pub to: Option<String>,
    pub transaction_index: Option<u64>,
    pub value: U256,
}

/// The text of the address of all zero bytes, which stands for the missing
/// recipient of a transaction that creates a contract.
pub open spec fn zero_address_text() -> Seq<char> {
    seq!['0', 'x'] + Seq::new(40, |i: int| '0')
}

/// The text of the address of all zero bytes.
pub fn zero_address() -> (text: String)
    ensures
        text@ == zero_address_text(),
{
    let zero: [u8; 20] = [0, 0, 0, 0, 0, 0, 0, 0, 0, 0, 0, 0, 0, 0, 0, 0, 0, 0, 0, 0];
    let text = format_bytes_slice(zero.as_slice());
    proof {
        assert(hex_chars(zero@) =~= Seq::new(40, |i: int| '0'));
    }
    text
}

/// The text of a method selector: `0x` and the eight digits of the first
/// four bytes of a call input, or of four zero bytes where the input is
/// shorter.
pub open spec fn method_text(input: Seq<char>) -> Seq<char> {
    seq!['0', 'x'] + hex_chars(
        leading_four(hex_bytes(encode_utf8(input).subrange(2, encode_utf8(input).len() as int))),
    )
}

impl DatabaseTransaction {
    /// The row of a transaction that stands in a block; what only a receipt
    /// tells is left open. The transaction must name its block and its place
    /// in it, and its input must be `0x` followed by a hexadecimal text.
    pub fn from_rpc(transaction: ChainTransaction, chain: u64, timestamp: u64) -> (row:
        DatabaseTransaction)
        requires
            transaction.block_hash.is_some(),
            transaction.block_number.is_some(),
            transaction.transaction_index.is_some(),
            is_prefixed_hex(encode_utf8(transaction.input@)),
        ensures
            transaction.access_list.is_some() ==> row.access_list
                == transaction.access_list.unwrap(),
            transaction.access_list.is_none() ==> row.access_list@.len() == 0,
            row.base_fee_per_gas.is_none(),
            row.block_hash == transaction.block_hash.unwrap(),
            row.block_number == transaction.block_number.unwrap(),
            row.chain == chain,
            row.contract_created.is_none(),
            row.cumulative_gas_used.is_none(),
            row.effective_gas_price.is_none(),
            row.from == transaction.from,
            row.gas_limit == transaction.gas_limit,
            row.gas_price == transaction.gas_price,
            row.gas_used.is_none(),
            row.hash == transaction.hash,
            row.input@ == transaction.input@,
            row.max_fee_per_gas == transaction.max_fee_per_gas,
            row.max_priority_fee_per_gas == transaction.max_priority_fee_per_gas,
            row.method@ == method_text(transaction.input@),
            row.nonce == transaction.nonce,
            row.status.is_none(),
            row.timestamp == timestamp,
            row.to@ == match transaction.to {
                Some(address) => address@,
                None => zero_address_text(),
            },
            row.transaction_index == transaction.transaction_index.unwrap(),
            row.transaction_type == TransactionType::spec_classify(
                transaction.is_eip1559,
                transaction.is_eip2930,
                transaction.is_eip4844,
                transaction.is_eip7702,
            ),
            row.value == transaction.value,
    {
        let to: String = match transaction.to {
            Some(address) => address,
            None => zero_address(),
        };
        let transaction_type = TransactionType::classify(
            transaction.is_eip1559,
            transaction.is_eip2930,
            transaction.is_eip4844,
            transaction.is_eip7702,
        );
        let access_list: Vec<(String, Vec<String>)> = match transaction.access_list {
            Some(access_list_items) => access_list_items,
            None => Vec::new(),
        };
        let byte4 = byte4_from_input(transaction.input.as_str());
        let method = format_bytes_slice(byte4.as_slice());
        let block_hash: String = match transaction.block_hash {
            Some(hash) => hash,
            None => unreached(),
        };
        let block_number: u64 = match transaction.block_number {
            Some(number) => number,
            None => unreached(),
        };
        let transaction_index: u64 = match transaction.transaction_index {
            Some(index) => index,
            None => unreached(),
        };
        DatabaseTransaction {
            access_list,
            base_fee_per_gas: None,
            block_hash,
            block_number,
            chain,
            contract_created: None,
            cumulative_gas_used: None,
            effective_gas_price: None,
            from: transaction.from,
            gas_limit: transaction.gas_limit,
            gas_price: transaction.gas_price,
            gas_used: None,
            hash: transaction.hash,
            input: transaction.input,
            max_fee_per_gas: transaction.max_fee_per_gas,
            max_priority_fee_per_gas: transaction.max_priority_fee_per_gas,
            method,
            nonce: transaction.nonce,
            status: None,
            timestamp,
            to,
            transaction_index,
            transaction_type,
            value: transaction.value,
        }
    }

    /// Fills in what the receipt says; the rest of the row stays as it is.
    pub fn add_receipt_data(&mut self, base_fee_per_gas: Option<u64>, receipt: &ChainReceipt)
        ensures
            final(self).base_fee_per_gas == base_fee_per_gas,
            final(self).contract_created == receipt.contract_address,
            final(self).cumulative_gas_used == Some(receipt.cumulative_gas_used),
            final(self).effective_gas_price == Some(receipt.effective_gas_price),
            final(self).gas_used == Some(receipt.gas_used),
            final(self).status == Some(receipt.status),
            final(self).access_list == old(self).access_list,
            final(self).block_hash == old(self).block_hash,
            final(self).block_number == old(self).block_number,
            final(self).chain == old(self).chain,
            final(self).from == old(self).from,
            final(self).gas_limit == old(self).gas_limit,
            final(self).gas_price == old(self).gas_price,
            final(self).hash == old(self).hash,
            final(self).input == old(self).input,
            final(self).max_fee_per_gas == old(self).max_fee_per_gas,
            final(self).max_priority_fee_per_gas == old(self).max_priority_fee_per_gas,
            final(self).method == old(self).method,
            final(self).nonce == old(self).nonce,
            final(self).timestamp == old(self).timestamp,
            final(self).to == old(self).to,
            final(self).transaction_index == old(self).transaction_index,
            final(self).transaction_type == old(self).transaction_type,
            final(self).value == old(self).value,
    {
        self.base_fee_per_gas = base_fee_per_gas;
        self.contract_created = match &receipt.contract_address {
            Some(address) => Some(address.clone()),
            None => None,
        };
        self.cumulative_gas_used = Some(receipt.cumulative_gas_used);
        self.effective_gas_price = Some(receipt.effective_gas_price);
        self.gas_used = Some(receipt.gas_used);
        self.status = Some(receipt.status);
    }
}

/// A block header and what hangs on it, as the chain reports it.
#[derive(Debug)]
pub struct ChainBlock {
    pub base_fee_per_gas: Option<u64>,
    pub difficulty: U256,
    pub extra_data: String,
    pub gas_limit: u64,
    pub gas_used: u64,
    pub hash: String,
    pub logs_bloom: String,
    pub miner: String,
    pub mix_hash: String,
    pub nonce: String,
    pub number: u64,
    pub parent_hash: String,
    pub receipts_root: String,
    pub sha3_uncles: String,
    pub size: Option<U256>,
    pub state_root: String,
    pub timestamp: u64,
    pub total_difficulty: Option<U256>,
    /// How many transactions the block holds.
    pub transactions: usize,
    pub transactions_root: String,
    pub uncles: Vec<String>,
    pub withdrawals_root: Option<String>,
}

/// A block, or an uncle of one.
#[derive(Debug)]
pub struct DatabaseBlock {
    pub base_fee_per_gas: Option<u64>,
    pub chain: u64,
    pub difficulty: U256,
    pub extra_data: String,
    pub gas_limit: u64,
    pub gas_used: u64,
    pub hash: String,
    pub is_uncle: bool,
    pub logs_bloom: String,
    pub miner: String,
    pub mix_hash: String,
    pub nonce: String,
    pub number: u64,
    pub parent_hash: String,
    pub receipts_root: String,
    pub sha3_uncles: String,
    pub size: u32,
    pub state_root: String,
    pub timestamp: u64,
    pub total_difficulty: Option<U256>,
    pub transactions: u16,
    pub transactions_root: String,
    pub uncles: Vec<String>,
    pub withdrawals_root: Option<String>,
}

impl DatabaseBlock {
    /// The row of a block. The block must say its size, and the size must
    /// fit in 32 bits. The count of transactions is kept modulo 65536.
    pub fn from_rpc(block: ChainBlock, chain: u64, is_uncle: bool) -> (row: DatabaseBlock)
        requires
            block.size.is_some(),
            block.size.unwrap().value() <= u32::MAX,
        ensures
            row.base_fee_per_gas == block.base_fee_per_gas,
            row.chain == chain,
            row.difficulty == block.difficulty,
            row.extra_data == block.extra_data,
            row.gas_limit == block.gas_limit,
            row.gas_used == block.gas_used,
            row.hash == block.hash,
            row.is_uncle == is_uncle,
            row.logs_bloom == block.logs_bloom,
            row.miner == block.miner,
            row.mix_hash == block.mix_hash,
            row.nonce == block.nonce,
            row.number == block.number,
            row.parent_hash == block.parent_hash,
            row.receipts_root == block.receipts_root,
            row.sha3_uncles == block.sha3_uncles,
            row.size == block.size.unwrap().value(),
            row.state_root == block.state_root,
            row.timestamp == block.timestamp,
            row.total_difficulty == block.total_difficulty,
            row.transactions == block.transactions % 65536,
            row.transactions_root == block.transactions_root,
            row.uncles == block.uncles,
            row.withdrawals_root == block.withdrawals_root,
    {
        let size: u32 = match block.size {
            Some(size) => {
                let low: u64 = size.limbs[0];
                assert(low == size.value());
                low as u32
            },
            None => unreached(),
        };
        let transactions: u16 = (block.transactions % 65536) as u16;
        DatabaseBlock {
            base_fee_per_gas: block.base_fee_per_gas,
            chain,
            difficulty: block.difficulty,
            extra_data: block.extra_data,
            gas_limit: block.gas_limit,
            gas_used: block.gas_used,
            hash: block.hash,
            is_uncle,
            logs_bloom: block.logs_bloom,
            miner: block.miner,
            mix_hash: block.mix_hash,
            nonce: block.nonce,
            number: block.number,
            parent_hash: block.parent_hash,
            receipts_root: block.receipts_root,
            sha3_uncles: block.sha3_uncles,
            size,
            state_root: block.state_root,
            timestamp: block.timestamp,
            total_difficulty: block.total_difficulty,
            transactions,
            transactions_root: block.transactions_root,
            uncles: block.uncles,
            withdrawals_root: block.withdrawals_root,
        }
    }
}

} // verus!
