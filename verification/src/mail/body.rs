//! What the shop's messages say.

use vstd::prelude::*;
use crate::catalog::Size;
use crate::order::{details_total, OrderDetails, OrderDetailsView, OrderItemDetails};
use crate::text::{append_decimal, decimal_text};

verus! {

/// The activation message up to the link.
pub const REGISTRATION_HEAD: &'static str = r##"
            <!DOCTYPE html>
            <html>
            <head>
                <style>
                    body {
                        background-color: #1a1a1a;
                        color: white;
                        font-family: Namu, sans-serif;
                        margin: 0;
                        padding: 20px;
                    }
                    .button {
                        display: inline-block;
                        padding: 10px 20px;
                        font-size: 16px;
                        color: #000000;
                        background-color: #FFA500;
                        border: none;
                        border-radius: 5px;
                        text-decoration: none;
                        cursor: pointer;
                    }
                    .button:hover {
                        background-color: #e59400;
                    }
                    .text {
                        color: #FFA500;
                    }
                    .container {
                        max-width: 600px;
                        margin: 0 auto;
                        padding: 20px;
                        background-color: #1a1a1a;
                        border-radius: 10px;
                    }
                </style>
            </head>
            <body>
                <div class="container">
                    <h2 class="text">Хелоу це Tyuntyun Shop!</h2>
                    <p class="text">Будь ласка активуй свій аккаунт, натисни кнопку нижче:</p>
                    <a href=""##;

/// The activation message after the link.
pub const REGISTRATION_TAIL: &'static str = r##"" class="button">Активувати аккаунт</a>
                    <p class="text">Дякуууую що ти з нами!</p>
                </div>
            </body>
            </html>
        "##;

/// A table row of the order message up to the product's name.
pub const ROW_OPEN: &'static str = r##"<tr>
                <td>"##;

/// What stands between two cells of a table row.
pub const ROW_NEXT: &'static str = r##"</td>
                <td>"##;

/// A table row after the line's total.
pub const ROW_CLOSE: &'static str = r##" грн</td>
            </tr>"##;

/// The order message up to the shipping address.
pub const ORDER_HEAD: &'static str = r##"
    <!DOCTYPE html>
    <html>
    <head>
        <style>
            body {
                background-color: #1c1c1c;
                color: #FFA500;
                font-family: 'Namu', sans-serif;
                margin: 0;
                padding: 20px;
            }
            .container {
                max-width: 600px;
                margin: auto;
                padding: 20px;
                background-color: #1c1c1c;
                border-radius: 8px;
                border: 1px solid #FFA500;
            }
            .header {
                color: #FFA500;
                font-size: 24px;
                text-align: center;
                margin-bottom: 20px;
                font-weight: bold;
            }
            .details {
                margin-top: 20px;
            }
            .details p {
                margin: 5px 0;
                color: #e59400;
            }
            table {
                width: 100%;
                border-collapse: collapse;
                margin-top: 10px;
                background-color: #1111;
            }
            th, td {
                border: 1px solid #FFA500;
                padding: 12px;
                text-align: center;
                color: #e59400;
            }
            th {
                background-color: #FFA500;
                color: #000;
            }
            tr:nth-child(even) {
                background-color: #1c1c1c;
            }
            tr:nth-child(odd) {
                background-color: #292929;
            }
            .button {
                display: inline-block;
                margin-top: 20px;
                padding: 10px 20px;
                background-color: #FFA500;
                color: #000;
                text-decoration: none;
                border-radius: 4px;
                text-align: center;
                font-weight: bold;
                cursor: pointer;
            }
            .button:hover {
                background-color: #e59400;
                color: #1a1a1a;
            }
        </style>
    </head>
    <body>
        <div class="container">
            <h2 class="header">Деталі нового замовлення</h2>
            <div class="details">
                <h3 style="color: #FFA500;">Інформація про доставку</h3>
                <p><strong>Адреса:</strong> "##;

/// The order message between the address and the first name.
pub const ORDER_BEFORE_NAME: &'static str = r##"</p>
                <p><strong>Ім'я:</strong> "##;

/// What stands between the first name and the last name.
pub const ORDER_NAME_GAP: &'static str = r##" "##;

/// The order message between the name and the phone number.
pub const ORDER_BEFORE_PHONE: &'static str = r##"</p>
                <p><strong>Телефон:</strong> "##;

/// The order message between the phone number and the mail address.
pub const ORDER_BEFORE_EMAIL: &'static str = r##"</p>
                <p><strong>Пошта:</strong> "##;

/// The order message between the contact and the table rows.
pub const ORDER_BEFORE_ITEMS: &'static str = r##"</p>
            </div>
            <div class="details">
                <h3 style="color: #FFA500;">Товари</h3>
                <table>
                    <thead>
                        <tr>
                            <th>Назва</th>
                            <th>Кількість</th>
                            <th>Розмір</th>
                            <th>Ціна</th>
                        </tr>
                    </thead>
                    <tbody>
                        "##;

/// The order message between the table rows and the sum.
pub const ORDER_BEFORE_TOTAL: &'static str = r##"
                    </tbody>
                </table>
                <p style="text-align: right; font-size: 18px; margin-top: 20px; color: #FFA500;">
                    <strong>Загальна сума:</strong> "##;

/// The order message after the sum.
pub const ORDER_TAIL: &'static str = r##" грн
                </p>
            </div>
        </div>
    </body>
    </html>
    "##;

/// What the order message shows for a product that comes in one size only.
pub const NO_SIZE: &'static str = "N/A";

/// The activation message for a link.
pub open spec fn registration_body_text(link: Seq<char>) -> Seq<char> {
    REGISTRATION_HEAD@ + link + REGISTRATION_TAIL@
}

/// How the order message shows a size.
pub open spec fn size_text(size: Size) -> Seq<char> {
    if size == Size::Single {
        NO_SIZE@
    } else {
        size.spec_label()
    }
}

/// The table row of one purchased item: name, quantity, size and total.
pub open spec fn row_text(item: OrderItemDetails) -> Seq<char> {
    ROW_OPEN@ + item.product_name@ + ROW_NEXT@ + decimal_text(item.quantity as int) + ROW_NEXT@
        + size_text(item.size) + ROW_NEXT@ + decimal_text(item.total_price as int) + ROW_CLOSE@
}

/// The table rows of the purchased items, in their order.
pub open spec fn rows_text(items: Seq<OrderItemDetails>) -> Seq<char>
    decreases items.len(),
{
    if items.len() == 0 {
        Seq::empty()
    } else {
        rows_text(items.drop_last()) + row_text(items.last())
    }
}

/// The order message: the shipping contact, one table row for each item, and
/// the sum of the items' totals.
pub open spec fn order_body_text(details: OrderDetailsView) -> Seq<char> {
    ORDER_HEAD@ + details.shipping.address@ + ORDER_BEFORE_NAME@ + details.shipping.first_name@
        + ORDER_NAME_GAP@ + details.shipping.last_name@ + ORDER_BEFORE_PHONE@
        + details.shipping.phone_number@ + ORDER_BEFORE_EMAIL@ + details.shipping.email@
        + ORDER_BEFORE_ITEMS@ + rows_text(details.items) + ORDER_BEFORE_TOTAL@ + decimal_text(
        details_total(details.items),
    ) + ORDER_TAIL@
}

/// Writes the activation message for a link.
pub fn registration_body(link: &str) -> (r: String)
    ensures
        r@ == registration_body_text(link@),
{
    let mut out = String::new();
    out.append(REGISTRATION_HEAD);
    out.append(link);
    out.append(REGISTRATION_TAIL);
    proof {
        assert(out@ =~= registration_body_text(link@));
    }
    out
}

fn size_label(size: Size) -> (r: &'static str)
    ensures
        r@ == size_text(size),
{
    match size {
        Size::Single => NO_SIZE,
        _ => size.label(),
    }
}

fn append_row(out: &mut String, item: &OrderItemDetails)
    ensures
        final(out)@ == old(out)@ + row_text(*item),
{
    out.append(ROW_OPEN);
    out.append(item.product_name.as_str());
    out.append(ROW_NEXT);
    append_decimal(out, item.quantity as i128);
    out.append(ROW_NEXT);
    out.append(size_label(item.size));
    out.append(ROW_NEXT);
    append_decimal(out, item.total_price as i128);
    out.append(ROW_CLOSE);
    proof {
        assert(final(out)@ =~= old(out)@ + row_text(*item));
    }
}

/// The sum of the items' totals. It fits in 128 bits whatever the items are.
pub fn sum_of_totals(items: &Vec<OrderItemDetails>) -> (r: i128)
    ensures
        r == details_total(items@),
{
    let mut total: i128 = 0;
    let mut k: usize = 0;
    while k < items.len()
        invariant
            k <= items@.len(),
            total == details_total(items@.take(k as int)),
            -(k * 0x8000_0000_0000_0000) <= total <= k * 0x8000_0000_0000_0000,
        decreases items@.len() - k,
    {
        proof {
            assert(items@.take(k as int + 1).drop_last() =~= items@.take(k as int));
        }
        total = total + items[k].total_price as i128;
        k = k + 1;
    }
    proof {
        assert(items@.take(items@.len() as int) =~= items@);
    }
    total
}

/// Writes the order message.
pub fn order_body(details: &OrderDetails) -> (r: String)
    ensures
        r@ == order_body_text(details@),
{
    let mut out = String::new();
    out.append(ORDER_HEAD);
    out.append(details.shipping.address.as_str());
    out.append(ORDER_BEFORE_NAME);
    out.append(details.shipping.first_name.as_str());
    out.append(ORDER_NAME_GAP);
    out.append(details.shipping.last_name.as_str());
    out.append(ORDER_BEFORE_PHONE);
    out.append(details.shipping.phone_number.as_str());
    out.append(ORDER_BEFORE_EMAIL);
    out.append(details.shipping.email.as_str());
    out.append(ORDER_BEFORE_ITEMS);
    let ghost before_rows = out@;
    let mut k: usize = 0;
    while k < details.items.len()
        invariant
            k <= details.items@.len(),
            out@ == before_rows + rows_text(details.items@.take(k as int)),
        decreases details.items@.len() - k,
    {
        proof {
            assert(details.items@.take(k as int + 1).drop_last() =~= details.items@.take(k as int));
        }
        let ghost so_far = out@;
        append_row(&mut out, &details.items[k]);
        proof {
            assert(out@ =~= before_rows + rows_text(details.items@.take(k as int + 1)));
        }
        k = k + 1;
    }
    proof {
        assert(details.items@.take(details.items@.len() as int) =~= details.items@);
    }
    out.append(ORDER_BEFORE_TOTAL);
    append_decimal(&mut out, sum_of_totals(&details.items));
    out.append(ORDER_TAIL);
    proof {
        assert(out@ =~= order_body_text(details@));
    }
    out
}

} // verus!
