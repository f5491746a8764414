//! The input form of the tracker: what it holds, how it is validated
//! before anything is stored, and how it is reset once something has been
//! stored or removed.
use vstd::prelude::*;
use crate::calendar::{is_ledger_date, ledger_date_is_valid, naive_date_from_str};
use crate::models::{parse_tx_type, TxType};
use crate::text::{trim, trimmed};

verus! {

/// Why the form was refused.
#[derive(Debug, Clone, Copy, PartialEq, Eq, Structural)]
pub enum InputError {
    NameAndCodeRequired,
    PriceNotPositive,
    SelectStockFirst,
    DateRequired,
    DateFormat,
    InvalidType,
    QuantityNotPositive,
    NotEnoughShares,
}

/// The status line shown for a refusal.
pub open spec fn error_message(e: InputError) -> Seq<char> {
    match e {
        InputError::NameAndCodeRequired => "Stock name and code are required"@,
        InputError::PriceNotPositive => "Price must be positive"@,
        InputError::SelectStockFirst => "Select a stock first"@,
        InputError::DateRequired => "Transaction date is required"@,
        InputError::DateFormat => "Date format must be YYYY-MM-DD"@,
        InputError::InvalidType => "Type must be buy, sell, or subdivision"@,
        InputError::QuantityNotPositive => "Quantity must be positive"@,
        InputError::NotEnoughShares => "Not enough shares to sell"@,
    }
}

impl InputError {
    /// The status line shown for this refusal.
    pub fn message(&self) -> (r: &'static str)
        ensures
            r@ == error_message(*self),
    {
        match self {
            InputError::NameAndCodeRequired => "Stock name and code are required",
            InputError::PriceNotPositive => "Price must be positive",
            InputError::SelectStockFirst => "Select a stock first",
            InputError::DateRequired => "Transaction date is required",
            InputError::DateFormat => "Date format must be YYYY-MM-DD",
            InputError::InvalidType => "Type must be buy, sell, or subdivision",
            InputError::QuantityNotPositive => "Quantity must be positive",
            InputError::NotEnoughShares => "Not enough shares to sell",
        }
    }
}

/// The part of a new transaction that the form settles before any amount
/// is read: the stock it belongs to, its date and its kind.
pub struct TxHeader {
    pub stock_id: i32,
    pub date: String,
    pub tx_type: TxType,
}

/// The outcome of checking a transaction's stock, date and kind, in the
/// order the form checks them: a stock must be selected, the date must be
/// given and must be a calendar date, and the kind must be known.
pub open spec fn header_outcome(
    selected: Option<i32>,
    date: Seq<char>,
    date_is_valid: bool,
    tx_type: Option<TxType>,
) -> Result<(i32, Seq<char>, TxType), InputError> {
    match selected {
        None => Err(InputError::SelectStockFirst),
        Some(id) => if date.len() == 0 {
            Err(InputError::DateRequired)
        } else if !date_is_valid {
            Err(InputError::DateFormat)
        } else {
            match tx_type {
                None => Err(InputError::InvalidType),
                Some(t) => Ok((id, date, t)),
            }
        },
    }
}

/// Once a stock is selected and the date is given and valid, a known kind
/// is accepted as it is: the header carries the selected stock, the date
/// and that kind unchanged, whatever the kind.
pub proof fn lemma_accepted_header_keeps_inputs(id: i32, date: Seq<char>, t: TxType)
    requires
        date.len() > 0,
    ensures
        header_outcome(Some(id), date, true, Some(t)) == Ok::<(i32, Seq<char>, TxType), InputError>(
            (id, date, t),
        ),
        forall|r: Result<TxHeader, InputError>|
            #[trigger] header_is(r, header_outcome(Some(id), date, true, Some(t))) ==> (r matches Ok(
                h,
            ) && h.stock_id == id && h.date@ == date && h.tx_type == t),
{
}

/// Without a selected stock every transaction is refused with
/// `SelectStockFirst`, whatever its date and kind.
pub proof fn lemma_header_needs_stock(date: Seq<char>, valid: bool, t: Option<TxType>)
    ensures
        header_outcome(None, date, valid, t) == Err::<(i32, Seq<char>, TxType), InputError>(
            InputError::SelectStockFirst,
        ),
{
}

/// `r` is the header, or the refusal, that `o` describes.
pub open spec fn header_is(r: Result<TxHeader, InputError>, o: Result<(i32, Seq<char>, TxType), InputError>) -> bool {
    match (r, o) {
        (Ok(h), Ok((id, date, t))) => h.stock_id == id && h.date@ == date && h.tx_type == t,
        (Err(e), Err(f)) => e == f,
        _ => false,
    }
}

/// Settles a transaction's header from the selected stock, the trimmed
/// date text, whether that text is a calendar date, and the kind read
/// from the kind field.
pub fn header_from_checks(
    selected: Option<i32>,
    date: &str,
    date_is_valid: bool,
    tx_type: Option<TxType>,
) -> (r: Result<TxHeader, InputError>)
    ensures
        header_is(r, header_outcome(selected, date@, date_is_valid, tx_type)),
        r is Ok <==> selected is Some && date@.len() > 0 && date_is_valid && tx_type is Some,
        r matches Ok(h) ==> selected == Some(h.stock_id) && h.date@ == date@ && tx_type == Some(
            h.tx_type,
        ),
        selected is None ==> r == Err::<TxHeader, InputError>(InputError::SelectStockFirst),
        selected is Some && date@.len() == 0 ==> r == Err::<TxHeader, InputError>(
            InputError::DateRequired,
        ),
        selected is Some && date@.len() > 0 && !date_is_valid ==> r == Err::<TxHeader, InputError>(
            InputError::DateFormat,
        ),
        selected is Some && date@.len() > 0 && date_is_valid && tx_type is None ==> r == Err::<
            TxHeader,
            InputError,
        >(InputError::InvalidType),
{
    match selected {
        None => Err(InputError::SelectStockFirst),
        Some(id) => {
            if date.is_empty() {
                Err(InputError::DateRequired)
            } else if !date_is_valid {
                Err(InputError::DateFormat)
            } else {
                match tx_type {
                    None => Err(InputError::InvalidType),
                    Some(t) => Ok(TxHeader { stock_id: id, date: date.to_owned(), tx_type: t }),
                }
            }
        },
    }
}

/// The text fields of the form, the selected stock and the status line.
pub struct FormState {
    pub stock_name_input: String,
    pub stock_code_input: String,
    pub stock_price_input: String,
    pub price_update_input: String,
    pub selected_stock: Option<i32>,
    pub txn_date_input: String,
    pub txn_type_input: String,
    pub txn_qty_input: String,
    pub txn_price_input: String,
    pub estimated_profit_input: String,
    pub total_price_input: String,
    pub status: String,
}

/// Which transaction fields the form shows for the kind typed so far.
#[derive(Debug, Clone, Copy, PartialEq, Eq, Structural)]
pub struct FieldLayout {
    /// The quantity field asks for a split multiplier.
    pub quantity_is_multiplier: bool,
    /// The price field is shown.
    pub shows_price: bool,
    /// The total price field is shown.
    pub shows_total_price: bool,
    /// The estimated profit field is shown.
    pub shows_estimated_profit: bool,
}

/// The fields for a new stock are the same in `a` and `b`.
pub open spec fn same_stock_fields(a: FormState, b: FormState) -> bool {
    &&& a.stock_name_input == b.stock_name_input
    &&& a.stock_code_input == b.stock_code_input
    &&& a.stock_price_input == b.stock_price_input
}

/// The fields for a new transaction are the same in `a` and `b`.
pub open spec fn same_transaction_fields(a: FormState, b: FormState) -> bool {
    &&& a.txn_date_input == b.txn_date_input
    &&& a.txn_type_input == b.txn_type_input
    &&& a.txn_qty_input == b.txn_qty_input
    &&& a.txn_price_input == b.txn_price_input
    &&& a.estimated_profit_input == b.estimated_profit_input
    &&& a.total_price_input == b.total_price_input
}

impl FormState {
    /// A fresh form: nothing selected, every field empty but the date,
    /// which holds `today`, and the kind, which holds `buy`; the status
    /// reads `Ready`.
    pub fn new(today: String) -> (f: FormState)
        ensures
            f.stock_name_input@.len() == 0,
            f.stock_code_input@.len() == 0,
            f.stock_price_input@.len() == 0,
            f.price_update_input@.len() == 0,
            f.selected_stock is None,
            f.txn_date_input == today,
            f.txn_type_input@ == "buy"@,
            f.txn_qty_input@.len() == 0,
            f.txn_price_input@.len() == 0,
            f.estimated_profit_input@.len() == 0,
            f.total_price_input@.len() == 0,
            f.status@ == "Ready"@,
    {
        FormState {
            stock_name_input: String::new(),
            stock_code_input: String::new(),
            stock_price_input: String::new(),
            price_update_input: String::new(),
            selected_stock: None,
            txn_date_input: today,
            txn_type_input: "buy".to_owned(),
            txn_qty_input: String::new(),
            txn_price_input: String::new(),
            estimated_profit_input: String::new(),
            total_price_input: String::new(),
            status: "Ready".to_owned(),
        }
    }

    /// Selects a stock and starts a new transaction for it: the date is
    /// `today`, the kind `buy`, and the amount fields and the price update
    /// field are emptied.
    pub fn select_stock(&mut self, stock_id: i32, today: String)
        ensures
            final(self).selected_stock == Some(stock_id),
            final(self).txn_date_input == today,
            final(self).txn_type_input@ == "buy"@,
            final(self).txn_qty_input@.len() == 0,
            final(self).txn_price_input@.len() == 0,
            final(self).estimated_profit_input@.len() == 0,
            final(self).total_price_input@.len() == 0,
            final(self).price_update_input@.len() == 0,
            same_stock_fields(*final(self), *old(self)),
            final(self).status == old(self).status,
    {
        self.selected_stock = Some(stock_id);
        self.txn_date_input = today;
        self.txn_type_input = "buy".to_owned();
        self.txn_qty_input = String::new();
        self.txn_price_input = String::new();
        self.estimated_profit_input = String::new();
        self.total_price_input = String::new();
        self.price_update_input = String::new();
    }

    /// The trimmed name and code of a new stock; refused where either is
    /// empty once trimmed.
    pub fn stock_identity(&self) -> (r: Result<(String, String), InputError>)
        ensures
            r is Err <==> trimmed(self.stock_name_input@).len() == 0 || trimmed(
                self.stock_code_input@,
            ).len() == 0,
            r matches Err(e) ==> e == InputError::NameAndCodeRequired,
            r matches Ok((name, code)) ==> name@ == trimmed(self.stock_name_input@) && code@
                == trimmed(self.stock_code_input@),
    {
        let name = trim(self.stock_name_input.as_str());
        let code = trim(self.stock_code_input.as_str());
        if name.is_empty() || code.is_empty() {
            Err(InputError::NameAndCodeRequired)
        } else {
            Ok((name.to_owned(), code.to_owned()))
        }
    }

    /// Empties the fields for a new stock once it has been stored.
    pub fn record_stock_added(&mut self)
        ensures
            final(self).stock_name_input@.len() == 0,
            final(self).stock_code_input@.len() == 0,
            final(self).stock_price_input@.len() == 0,
            final(self).status@ == "Stock added"@,
            final(self).selected_stock == old(self).selected_stock,
            final(self).price_update_input == old(self).price_update_input,
            same_transaction_fields(*final(self), *old(self)),
    {
        self.stock_name_input = String::new();
        self.stock_code_input = String::new();
        self.stock_price_input = String::new();
        self.status = "Stock added".to_owned();
    }

    /// The selected stock; refused where none is selected.
    pub fn selected(&self) -> (r: Result<i32, InputError>)
        ensures
            r == match self.selected_stock {
                Some(id) => Ok::<i32, InputError>(id),
                None => Err(InputError::SelectStockFirst),
            },
    {
        match self.selected_stock {
            Some(id) => Ok(id),
            None => Err(InputError::SelectStockFirst),
        }
    }

    /// Empties the price update field once the new price has been stored.
    pub fn record_price_updated(&mut self)
        ensures
            final(self).price_update_input@.len() == 0,
            final(self).selected_stock == old(self).selected_stock,
            final(self).status == old(self).status,
            same_stock_fields(*final(self), *old(self)),
            same_transaction_fields(*final(self), *old(self)),
    {
        self.price_update_input = String::new();
    }

    /// The stock, date and kind of the transaction in the form.
    pub fn transaction_header(&self) -> (r: Result<TxHeader, InputError>)
        ensures
            header_is(
                r,
                header_outcome(
                    self.selected_stock,
                    trimmed(self.txn_date_input@),
                    is_ledger_date(trimmed(self.txn_date_input@)),
                    parse_tx_type(self.txn_type_input@),
                ),
            ),
            r is Ok <==> self.selected_stock is Some && trimmed(self.txn_date_input@).len() > 0
                && naive_date_from_str(trimmed(self.txn_date_input@), "%Y-%m-%d"@) is Some
                && parse_tx_type(self.txn_type_input@) is Some,
            r matches Ok(h) ==> self.selected_stock == Some(h.stock_id) && h.date@ == trimmed(
                self.txn_date_input@,
            ) && parse_tx_type(self.txn_type_input@) == Some(h.tx_type),
    {
        let date = trim(self.txn_date_input.as_str());
        let date_is_valid = ledger_date_is_valid(date);
        let tx_type = TxType::from_str(self.txn_type_input.as_str());
        header_from_checks(self.selected_stock, date, date_is_valid, tx_type)
    }

    /// Empties the amount fields once a transaction has been stored; the
    /// price field is kept after a subdivision, which has no price.
    pub fn record_transaction_added(&mut self, tx_type: TxType)
        ensures
            final(self).txn_qty_input@.len() == 0,
            tx_type != TxType::Subdivision ==> final(self).txn_price_input@.len() == 0,
            tx_type == TxType::Subdivision ==> final(self).txn_price_input == old(
                self,
            ).txn_price_input,
            final(self).estimated_profit_input@.len() == 0,
            final(self).total_price_input@.len() == 0,
            final(self).txn_date_input == old(self).txn_date_input,
            final(self).txn_type_input == old(self).txn_type_input,
            final(self).selected_stock == old(self).selected_stock,
            final(self).price_update_input == old(self).price_update_input,
            final(self).status == old(self).status,
            same_stock_fields(*final(self), *old(self)),
    {
        self.txn_qty_input = String::new();
        if tx_type != TxType::Subdivision {
            self.txn_price_input = String::new();
        }
        self.estimated_profit_input = String::new();
        self.total_price_input = String::new();
    }

    /// Forgets a removed stock: where it was the selected one, nothing is
    /// selected any more, and `true` says that its transactions are no
    /// longer shown. The status reads `Stock deleted`.
    pub fn forget_stock(&mut self, stock_id: i32) -> (cleared: bool)
        ensures
            cleared == (old(self).selected_stock == Some(stock_id)),
            final(self).selected_stock == if cleared {
                None
            } else {
                old(self).selected_stock
            },
            final(self).status@ == "Stock deleted"@,
            final(self).price_update_input == old(self).price_update_input,
            same_stock_fields(*final(self), *old(self)),
            same_transaction_fields(*final(self), *old(self)),
    {
        let cleared = self.selected_stock == Some(stock_id);
        if cleared {
            self.selected_stock = None;
        }
        self.status = "Stock deleted".to_owned();
        cleared
    }

    /// Notes on the status line that a transaction has been removed.
    pub fn record_transaction_deleted(&mut self)
        ensures
            final(self).status@ == "Transaction deleted"@,
            final(self).selected_stock == old(self).selected_stock,
            final(self).price_update_input == old(self).price_update_input,
            same_stock_fields(*final(self), *old(self)),
            same_transaction_fields(*final(self), *old(self)),
    {
        self.status = "Transaction deleted".to_owned();
    }

    /// Shows a refusal on the status line.
    pub fn report(&mut self, err: InputError)
        ensures
            final(self).status@ == error_message(err),
            final(self).selected_stock == old(self).selected_stock,
            final(self).price_update_input == old(self).price_update_input,
            same_stock_fields(*final(self), *old(self)),
            same_transaction_fields(*final(self), *old(self)),
    {
        self.status = err.message().to_owned();
    }

    /// Which transaction fields to show: a subdivision asks for a
    /// multiplier and has no price; a purchase may be given by its total
    /// price, a sale by its expected profit.
    pub fn layout(&self) -> (l: FieldLayout)
        ensures
            l.quantity_is_multiplier == (parse_tx_type(self.txn_type_input@) == Some(
                TxType::Subdivision,
            )),
            l.shows_price == (parse_tx_type(self.txn_type_input@) != Some(TxType::Subdivision)),
            l.shows_total_price == (parse_tx_type(self.txn_type_input@) == Some(TxType::Buy)),
            l.shows_estimated_profit == (parse_tx_type(self.txn_type_input@) == Some(
                TxType::Sell,
            )),
    {
        let kind = TxType::from_str(self.txn_type_input.as_str());
        let subdivision = kind == Some(TxType::Subdivision);
        FieldLayout {
            quantity_is_multiplier: subdivision,
            shows_price: !subdivision,
            shows_total_price: kind == Some(TxType::Buy),
            shows_estimated_profit: kind == Some(TxType::Sell),
        }
    }

    /// Whether the kind field names a subdivision.
    pub fn is_subdivision_input(&self) -> (r: bool)
        ensures
            r == (parse_tx_type(self.txn_type_input@) == Some(TxType::Subdivision)),
    {
        TxType::from_str(self.txn_type_input.as_str()) == Some(TxType::Subdivision)
    }
}

/// The first position in `ids` that holds the selected stock's id;
/// nothing where no stock is selected or none of `ids` is it.
pub fn position_of_stock(ids: &Vec<i32>, selected: Option<i32>) -> (r: Option<usize>)
    ensures
        match r {
            Some(i) => i < ids@.len() && selected == Some(ids@[i as int]) && forall|j: int|
                0 <= j < i ==> selected != Some(#[trigger] ids@[j]),
            None => forall|j: int| 0 <= j < ids@.len() ==> selected != Some(#[trigger] ids@[j]),
        },
{
    let n: usize = ids.len();
    for i in 0..n
        invariant
            n == ids@.len(),
            forall|j: int| 0 <= j < i ==> selected != Some(#[trigger] ids@[j]),
    {
        if selected == Some(ids[i]) {
            return Some(i);
        }
    }
    None
}

} // verus!
