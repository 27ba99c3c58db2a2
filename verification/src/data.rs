//! Embedded data of the Bijoy encoding family: the substitution table, the
//! font allowlists and the English wordlist used by the classifier.

use vstd::prelude::*;

verus! {

/// The Bijoy to Unicode substitution table, one TOML table per n-gram length.
pub const BIJOY_MAPPING_TOML: &'static str = r#"# Bijoy (SutonnyMJ) to Unicode Bengali substitution table.

[quadgrams]

[trigrams]
"`ª“" = "দ্রু"
"”Q¡" = "চ্ছ্ব"
"š¿¨" = "ন্ত্র্য"

[bigrams]
"Av" = "আ"
"i¨" = "র\u200C্য"
"ª¨" = "্র্য"
"K¡" = "ক্ব"
"K¬" = "ক্ল"
"Mœ" = "গ্ন"
"M¥" = "গ্ম"
"Mø" = "গ্ল"
"•¶" = "ঙ্ক্ষ"
"•L" = "ঙ্খ"
"•N" = "ঙ্ঘ"
"”P" = "চ্চ"
"”Q" = "চ্ছ"
"”T" = "চ্ঞ"
"¾¡" = "জ্জ্ব"
"R¡" = "জ্ব"
"U¡" = "ট্ব"
"U¥" = "ট্ম"
"Y^" = "ণ্ব"
"Ë¡" = "ত্ত্ব"
"Zœ" = "ত্ন"
"Z¥" = "ত্ম"
"Z¡" = "ত্ব"
"_¡" = "থ্ব"
"˜M" = "দ্গ"
"˜N" = "দ্ঘ"
"˜¡" = "দ্ব"
"™¢" = "দ্ভ"
"aŸ" = "ধ্ব"
"a¥" = "ধ্ম"
"›U" = "ন্ট"
"š¿" = "ন্ত্র"
"š—" = "ন্ত"
"¯¿" = "স্ত্র"
"š’" = "ন্থ"
"›`" = "ন্দ"
"›Ø" = "ন্দ্ব"
"bœ" = "ন্ন"
"š^" = "ন্ব"
"b¥" = "ন্ম"
"cœ" = "প্ন"
"cø" = "প্ল"
"d¬" = "ফ্ল"
"eŸ" = "ব্ব"
"eø" = "ব্ল"
"gœ" = "ম্ন"
"¤ú" = "ম্প"
"¤^" = "ম্ব"
"¤¢" = "ম্ভ"
"¤£" = "ম্ভ্র"
"¤§" = "ম্ম"
"¤ø" = "ম্ল"
"i“" = "রু"
"iƒ" = "রূ"
"j¦" = "ল্ব"
"j¥" = "ল্ম"
"jø" = "ল্ল"
"k¦" = "শ্ব"
"k¥" = "শ্ম"
"kø" = "শ্ল"
"®ú" = "ষ্প"
"®§" = "ষ্ম"
"¯‹" = "স্ক"
"¯Œ" = "স্ক্র"
"¯Í" = "স্ত"
"¯‘" = "স্তু"
"¯’" = "স্থ"
"mœ" = "স্ন"
"¯ú" = "স্প"
"¯^" = "স্ব"
"¯§" = "স্ম"
"¯ø" = "স্ল"
"nè" = "হ্ণ"
"nŸ" = "হ্ব"
"n¬" = "হ্ল"
"„„" = "ৃ"
"š‘" = "ন্তু"

[single_char]
"A" = "অ"
"B" = "ই"
"C" = "ঈ"
"D" = "উ"
"E" = "ঊ"
"F" = "ঋ"
"G" = "এ"
"H" = "ঐ"
"I" = "ও"
"J" = "ঔ"
"K" = "ক"
"L" = "খ"
"M" = "গ"
"N" = "ঘ"
"O" = "ঙ"
"P" = "চ"
"Q" = "ছ"
"R" = "জ"
"S" = "ঝ"
"T" = "ঞ"
"U" = "ট"
"V" = "ঠ"
"W" = "ড"
"X" = "ঢ"
"Y" = "ণ"
"Z" = "ত"
"_" = "থ"
"`" = "দ"
"a" = "ধ"
"b" = "ন"
"c" = "প"
"d" = "ফ"
"e" = "ব"
"f" = "ভ"
"g" = "ম"
"h" = "য"
"i" = "র"
"j" = "ল"
"k" = "শ"
"l" = "ষ"
"m" = "স"
"n" = "হ"
"o" = "ড়"
"p" = "ঢ়"
"q" = "য়"
"r" = "ৎ"
"s" = "ং"
"t" = "ঃ"
"u" = "ঁ"
"v" = "া"
"w" = "ি"
"x" = "ী"
"y" = "ু"
"z" = "ু"
"“" = "ু"
"–" = "ু"
"~" = "ূ"
"ƒ" = "ূ"
"‚" = "ূ"
"„" = "ৃ"
"…" = "ৃ"
"†" = "ে"
"‡" = "ে"
"ˆ" = "ৈ"
"‰" = "ৈ"
"Š" = "ৗ"
"|" = "।"
"&" = "্\u200C"
"^" = "্ব"
"‘" = "্তু"
"’" = "্থ"
"‹" = "্ক"
"Œ" = "্ক্র"
"—" = "্ত"
"œ" = "্ন"
"Ÿ" = "্ব"
"¡" = "্ব"
"¢" = "্ভ"
"£" = "্ভ্র"
"¤" = "ম্"
"¥" = "্ম"
"¦" = "্ব"
"§" = "্ম"
"¨" = "্য"
"©" = "র্"
"ª" = "্র"
"«" = "্র"
"¬" = "্ল"
"®" = "ষ্"
"¯" = "স্"
"°" = "ক্ক"
"±" = "ক্ট"
"³" = "ক্ত"
"µ" = "ক্র"
"¶" = "ক্ষ"
"·" = "ক্স"
"¸" = "গু"
"»" = "গ্ধ"
"¼" = "ঙ্ক"
"½" = "ঙ্গ"
"¾" = "জ্জ"
"¿" = "ত্র"
"À" = "জ্ঝ"
"Á" = "জ্ঞ"
"Â" = "ঞ্চ"
"Ã" = "ঞ্ছ"
"Ä" = "ঞ্জ"
"Å" = "ঞ্ঝ"
"Æ" = "ট্ট"
"Ç" = "ড্ড"
"È" = "ণ্ট"
"É" = "ণ্ঠ"
"Ê" = "ণ্ড"
"Ë" = "ত্ত"
"Ì" = "ত্থ"
"Í" = "ত্র"
"Î" = "ত্র"
"Ï" = "দ্দ"
"Ñ" = "–"
"Ò" = "“"
"Ó" = "”"
"Ô" = "‘"
"Õ" = "’"
"×" = "দ্ধ"
"Ø" = "দ্ব"
"Ù" = "দ্ম"
"Ú" = "ন্ঠ"
"Û" = "ন্ড"
"Ü" = "ন্ধ"
"Ý" = "ন্স"
"Þ" = "প্ট"
"ß" = "প্ত"
"à" = "প্প"
"á" = "প্স"
"â" = "ব্জ"
"ã" = "ব্দ"
"ä" = "ব্ধ"
"å" = "ভ্র"
"ç" = "ম্ফ"
"é" = "ল্ক"
"ê" = "ল্গ"
"ë" = "ল্ট"
"ì" = "ল্ড"
"í" = "ল্প"
"ï" = "ল্ফ"
"ð" = "শু"
"ñ" = "শ্চ"
"ò" = "ষ্ণ"
"ó" = "ষ্ট"
"ô" = "ষ্ঠ"
"õ" = "ষ্ফ"
"ö" = "স্খ"
"÷" = "স্ট"
"ù" = "স্ফ"
"û" = "হু"
"ü" = "হৃ"
"ý" = "হ্ন"
"þ" = "হ্ম"
"•" = "ঙ্"
"›" = "ন্"
"š" = "ন্"
"”" = "চ্"
"˜" = "দ্"
"™" = "দ্"
"0" = "০"
"1" = "১"
"2" = "২"
"3" = "৩"
"4" = "৪"
"5" = "৫"
"6" = "৬"
"7" = "৭"
"8" = "৮"
"9" = "৯"
"#;


/// Bijoy glyphs that rarely occur in English prose (vowel-sign and
/// conjunct-marker positions of the Bijoy layout).
pub const BIJOY_DISTINCTIVE_CHARS: [char; 78] = [
    '†', '‡', '•', '‰', 'Š', '‹', 'Œ', '—', '¯', '¦', '§', '©',
    'ª', '«', '¬', '®', 'µ', '¶', '·', '¸', '»', '¼', '½', '¾',
    'À', 'Á', 'Â', 'Ã', 'Ä', 'Å', 'Æ', 'Ç', 'È', 'É', 'Ê', 'Ë',
    'Ì', 'Ï', '×', 'Ø', 'Ù', 'Ú', 'Û', 'Ü', 'Þ', 'ß', 'à', 'á',
    'â', 'ã', 'ä', 'å', 'ç', 'é', 'ê', 'ë', 'ì', 'í', 'î', 'ï',
    'ð', 'ò', 'ó', 'ô', 'õ', 'ö', '÷', 'ù', 'û', 'ü', 'ý', 'þ',
    'š', '›', '¡', '¢', '£', '¥',
];

/// High-signal Bijoy patterns: aa-kar (`v`) after a consonant, i-kar (`w`)
/// and e-kar (`‡`) before one, and a few common particles.
pub const BIJOY_BIGRAM_PATTERNS: [&'static str; 83] = [
    "Av", "Bv", "Kv", "Mv", "Nv", "Pv", "Rv", "Sv", "Tv", "Yv",
    "Zv", "av", "bv", "cv", "dv", "ev", "fv", "gv", "hv", "iv",
    "jv", "kv", "lv", "mv", "nv", "pv", "qv", "wK", "wM", "wP",
    "wR", "wZ", "wa", "wb", "wc", "wd", "we", "wf", "wg", "wh",
    "wi", "wj", "wk", "wl", "wm", "wn", "wp", "wq", "wQ", "‡K",
    "‡L", "‡M", "‡N", "‡P", "‡Q", "‡R", "‡S", "‡T", "‡U", "‡V",
    "‡W", "‡X", "‡Y", "‡Z", "‡b", "‡c", "‡d", "‡e", "‡f", "‡g",
    "‡h", "‡i", "‡j", "‡k", "‡l", "‡m", "‡n", "‡p", "‡q", "Ges",
    "Aviv", "Zviv", "wQj",
];


/// The ANSI Bengali font allowlist of the Bijoy family (case-insensitive
/// substring match; any name ending in `MJ` also counts).
pub const BIJOY_FONTS_TOML: &'static str = r#"ansi_fonts = [
    "SutonnyMJ",
    "AdorshoLipi",
    "JugantorMJ",
    "ChandrabatiMJ",
    "TonnyMJ",
]
"#;

/// The Unicode Bengali font allowlist (case-insensitive substring match).
pub const UNICODE_FONTS_TOML: &'static str = r#"unicode_fonts = [
    "Kalpurush",
    "Nikosh",
    "SolaimanLipi",
    "Noto Sans Bengali",
    "Noto Serif Bengali",
    "Siyam Rupali",
    "Shonar Bangla",
    "Vrinda",
    "Lohit Bengali",
    "Mukti",
    "Ekushey",
    "Hind Siliguri",
    "Tiro Bangla",
]
"#;

/// Common English words, one per line, lower case (part 1 of 12 of the
/// dictionary behind the classifier's English-coverage feature).
pub const ENGLISH_WORDS_1: &'static str = r#"the
of
and
to
in
for
is
on
that
by
this
with
you
it
not
or
be
are
from
at
as
your
all
have
new
more
an
was
we
will
home
can
us
about
if
page
my
has
search
free
but
our
one
other
do
no
information
time
they
site
he
up
may
what
which
their
news
out
use
any
there
see
only
so
his
when
contact
here
business
who
web
also
now
help
get
view
online
first
been
would
how
were
me
services
some
these
click
its
like
service
than
find
price
date
back
top
people
had
list
name
just
over
state
year
day
into
email
two
health
world
next
used
go
work
last
most
products
music
buy
data
make
them
should
product
system
post
her
city
add
policy
number
such
please
available
support
message
after
best
software
then
good
video
well
where
info
rights
public
books
high
school
through
each
links
she
review
years
order
very
privacy
book
items
company
read
group
need
many
user
said
does
set
under
general
research
university
mail
full
map
reviews
program
life
know
games
way
days
management
part
could
great
united
hotel
real
item
international
center
must
store
travel
comments
made
development
report
off
member
details
line
terms
before
hotels
did
send
right
type
because
local
those
using
results
office
education
national
car
design
take
posted
internet
address
community
within
states
area
want
phone
shipping
reserved
subject
between
forum
family
long
based
code
show
even
black
check
special
prices
website
index
being
women
much
sign
file
link
open
today
technology
south
case
project
same
pages
version
section
own
found
sports
house
related
security
both
county
american
photo
game
members
power
while
care
network
down
computer
systems
three
total
place
end
following
download
him
without
per
access
think
north
resources
current
posts
big
media
law
control
water
history
pictures
size
art
personal
since
including
guide
shop
directory
board
location
change
white
text
small
rating
rate
government
children
during
return
students
shopping
account
times
sites
level
digital
profile
previous
form
events
love
old
main
call
hours
image
department
title
description
insurance
another
why
shall
property
class
still
money
quality
every
listing
content
country
private
little
visit
save
tools
low
reply
customer
compare
movies
include
college
value
article
man
card
jobs
provide
food
source
author
different
press
learn
sale
around
print
course
job
process
room
stock
training
too
credit
point
join
science
men
categories
advanced
west
sales
look
english
left
team
estate
box
conditions
select
windows
photos
thread
week
category
note
live
large
gallery
table
register
however
market
library
really
action
start
series
model
features
air
industry
plan
human
provided
yes
required
second
hot
cost
movie
forums
better
say
questions
going
medical
test
friend
come
server
study
application
cart
staff
articles
feedback
again
play
looking
issues
never
users
complete
street
topic
comment
financial
things
working
against
standard
tax
person
below
mobile
less
got
party
payment
equipment
student
let
programs
offers
legal
above
recent
park
stores
side
act
problem
red
give
memory
performance
social
quote
language
story
sell
options
experience
rates
create
key
body
young
important
field
few
east
paper
single
age
activities
club
example
additional
password
latest
something
road
gift
question
changes
night
hard
four
pay
status
issue
range
building
court
always
result
audio
light
write
war
offer
blue
groups
easy
given
files
event
release
analysis
request
picture
needs
possible
might
professional
yet
month
major
star
areas
future
space
committee
hand
sun
cards
problems
meeting
become
interest
child
keep
enter
share
similar
garden
schools
million
added
reference
companies
listed
baby
learning
energy
run
delivery
net
popular
term
film
stories
put
journal
reports
try
welcome
central
images
president
notice
god
original
head
radio
until
cell
color
self
council
away
includes
track
discussion
archive
once
others
entertainment
agreement
format
least
society
months
log
safety
friends
sure
trade
edition
cars
"#;

/// Common English words, one per line, lower case (part 2 of 12 of the
/// dictionary behind the classifier's English-coverage feature).
pub const ENGLISH_WORDS_2: &'static str = r#"messages
marketing
tell
further
updated
association
able
having
provides
fun
already
green
studies
close
common
drive
specific
several
gold
living
collection
called
short
arts
lot
ask
display
limited
powered
solutions
means
director
daily
beach
past
natural
whether
due
five
upon
period
planning
database
says
official
weather
land
average
done
technical
window
region
island
record
direct
conference
environment
records
district
calendar
costs
style
front
statement
update
parts
ever
early
miles
sound
resource
present
applications
either
ago
document
word
works
material
bill
written
talk
federal
rules
final
tickets
thing
centre
requirements
cheap
kids
finance
true
minutes
else
mark
third
rock
gifts
reading
topics
bad
individual
tips
plus
cover
usually
edit
together
videos
percent
fast
function
fact
unit
getting
global
meet
far
economic
player
projects
often
subscribe
submit
amount
watch
included
feel
though
bank
risk
thanks
everything
deals
various
words
production
commercial
weight
town
heart
advertising
received
choose
treatment
newsletter
points
knowledge
magazine
error
camera
girl
currently
construction
registered
clear
golf
receive
domain
methods
chapter
makes
protection
policies
loan
wide
beauty
manager
position
taken
sort
models
known
half
cases
step
engineering
simple
quick
none
license
friday
lake
whole
annual
published
later
basic
shows
corporate
church
method
purchase
customers
active
response
practice
figure
materials
fire
holiday
chat
enough
designed
along
among
death
writing
speed
countries
loss
face
brand
discount
higher
effects
created
remember
standards
oil
bit
yellow
political
increase
base
near
thought
stuff
storage
doing
loans
shoes
entry
stay
nature
orders
turn
mean
growth
notes
agency
king
monday
activity
copy
although
income
force
cash
employment
overall
bay
river
commission
package
contents
seen
players
engine
port
album
regional
stop
supplies
started
administration
bar
institute
views
plans
double
dog
build
screen
exchange
types
soon
lines
electronic
continue
across
benefits
needed
season
apply
someone
held
anything
condition
effective
believe
organization
effect
asked
mind
sunday
selection
lost
tour
menu
volume
cross
anyone
hope
silver
inside
solution
role
rather
weeks
addition
came
supply
nothing
certain
running
lower
necessary
union
according
particular
fine
names
hour
gas
skills
six
advice
career
military
decision
leave
woman
middle
move
cable
taking
values
division
coming
tuesday
object
machine
length
actually
nice
score
client
returns
capital
follow
sample
investment
sent
shown
saturday
culture
band
flash
lead
choice
went
starting
thursday
courses
consumer
foreign
artist
outside
furniture
levels
channel
letter
ideas
wednesday
structure
fund
summer
allow
degree
contract
button
homes
super
male
matter
custom
almost
took
located
multiple
distribution
editor
industrial
cause
potential
song
focus
late
fall
featured
idea
rooms
female
responsible
primary
numbers
reason
tool
spring
foundation
answer
voice
friendly
schedule
documents
purpose
feature
bed
comes
police
everyone
independent
approach
physical
operating
hill
maps
medicine
deal
hold
happy
wanted
developed
thank
safe
unique
survey
prior
sport
ready
feed
animal
sources
population
regular
secure
station
round
master
valley
recently
probably
built
blood
cut
improve
connection
larger
earth
parents
impact
transfer
kitchen
strong
ground
overview
ship
excellent
paid
perfect
hair
opportunity
classic
basis
command
cities
express
award
distance
tree
ensure
thus
wall
involved
extra
especially
budget
rated
success
maximum
operation
existing
quite
selected
boy
beautiful
warning
wine
horse
vote
forward
flowers
stars
significant
useful
directly
owner
retail
animals
ways
son
rule
housing
takes
bring
catalog
max
trying
mother
authority
considered
told
traffic
strategy
feet
agent
valid
modern
senior
teaching
door
grand
testing
trial
charge
units
instead
cool
normal
wrote
entire
leading
metal
positive
opinion
football
uses
output
funds
greater
likely
develop
employees
"#;

/// Common English words, one per line, lower case (part 3 of 12 of the
/// dictionary behind the classifier's English-coverage feature).
pub const ENGLISH_WORDS_3: &'static str = r#"alternative
seems
pass
trust
contains
session
photography
academic
assistance
completed
skin
expected
ring
grade
mountain
longer
consider
behind
panel
floor
buying
match
proposed
require
boys
outdoor
deep
morning
otherwise
allows
rest
plant
reported
hit
pool
politics
partner
authors
fish
membership
mission
eye
string
sense
modified
pack
released
stage
internal
goods
recommended
born
unless
detailed
race
approved
background
target
except
character
maintenance
ability
maybe
functions
moving
places
pretty
yourself
winter
battery
youth
pressure
submitted
boston
debt
medium
television
interested
core
break
purposes
throughout
sets
dance
wood
itself
defined
papers
playing
awards
fee
studio
reader
device
established
answers
rent
remote
dark
enjoy
remove
aid
surface
minimum
variety
teachers
block
subjects
increased
repair
fair
civil
steel
songs
fixed
wrong
beginning
hands
finally
classes
gets
sector
capacity
requires
fat
fully
father
electric
saw
instruments
officer
driver
dead
respect
unknown
trip
worth
poor
teacher
eyes
relationship
workers
farm
peace
traditional
showing
creative
coast
benefit
progress
funding
devices
grant
agree
fiction
hear
sometimes
beyond
goes
families
museum
themselves
fan
transport
interesting
wife
former
ten
zone
complex
cat
references
presented
jack
flat
flow
literature
parent
setting
scale
stand
economy
highest
helpful
monthly
critical
frame
definition
secretary
path
chief
gives
bottom
detail
laws
changed
pet
heard
begin
individuals
royal
clean
switch
largest
guy
relevant
justice
connect
applied
weekly
demand
square
attention
advance
diet
army
difference
allowed
correct
nation
selling
lots
piece
sheet
firm
seven
older
elements
species
jump
cells
resort
facility
random
pricing
minister
motion
looks
fashion
visitors
monitor
trading
forest
calls
whose
couple
giving
chance
vision
ball
ending
clients
actions
listen
discuss
accept
goal
successful
sold
wind
communities
situation
markets
lowest
highly
appear
emergency
lives
currency
leather
determine
temperature
patient
actual
historical
stone
perhaps
persons
difficult
scientific
fit
tests
village
accounts
pain
coffee
settings
buyer
cultural
easily
closed
holidays
ice
balance
graduate
label
thinking
recommend
waste
minute
bus
provider
cold
accounting
manufacturing
chair
fishing
effort
phase
fields
bag
letters
motor
professor
context
generally
continued
foot
mass
crime
count
quickly
dollars
religion
claim
driving
surgery
heat
wild
measures
generation
miss
doctor
task
reduce
brought
himself
nor
component
enable
exercise
leader
diamond
alone
seconds
walk
fuel
produced
wait
pocket
freedom
argument
competition
creating
fresh
characters
growing
thousands
stream
pick
hearing
eastern
began
steps
errors
efforts
thoughts
worked
quantity
urban
practices
essential
myself
tours
platform
load
labor
immediately
nursing
defense
machines
heavy
covered
recovery
guys
expert
protect
drop
solid
presentation
languages
became
orange
vehicles
prevent
theme
rich
campaign
marine
guitar
finding
examples
saying
spirit
claims
challenge
seem
touch
intended
towards
goals
hire
election
suggest
branch
charges
serve
reasons
magic
mount
smart
talking
gave
ones
latin
avoid
manage
corner
rank
birth
virus
separate
quarter
procedure
leadership
tables
define
racing
religious
facts
breakfast
column
plants
faith
chain
identify
avenue
missing
died
approximately
domestic
moved
reach
comparison
mental
moment
extended
sequence
attack
sorry
opening
damage
reserve
recipes
plastic
produce
snow
placed
truth
counter
failure
follows
weekend
dollar
camp
automatically
films
bridge
native
fill
movement
printing
baseball
owned
approval
draft
chart
played
readers
clubs
equal
adventure
matching
offering
leaders
assistant
variable
expect
parking
yesterday
compared
determined
workshop
gone
codes
kinds
extension
statements
golden
completely
teams
lighting
forces
funny
brother
turned
portable
tried
returned
pattern
boat
named
theatre
earlier
sponsor
icon
direction
objects
ends
evening
assembly
taxes
mouse
signal
issued
brain
"#;

/// Common English words, one per line, lower case (part 4 of 12 of the
/// dictionary behind the classifier's English-coverage feature).
pub const ENGLISH_WORDS_4: &'static str = r#"powerful
dream
obtained
false
cast
flower
felt
passed
supplied
identified
falls
soul
opinions
promote
stated
carry
flag
decided
covers
advantage
hello
designs
maintain
tourism
priority
adults
savings
graphic
payments
estimated
brief
ended
winning
eight
iron
straight
served
wants
prepared
alert
integration
interview
mix
queen
credits
clearly
fix
handle
sweet
desk
criteria
vice
associate
truck
behavior
frequently
revenue
measure
changing
votes
duty
looked
bear
gain
festival
ocean
flights
experts
signs
lack
depth
whatever
train
exactly
dry
explore
concept
nearly
reality
forgot
origin
knew
billion
destination
faster
intelligence
bought
nations
route
followed
broken
blow
battle
speak
decisions
industries
query
partnership
editorial
expression
wire
principles
suggestions
rural
shared
sounds
replacement
tape
judge
economics
speaker
obtain
remain
managed
failed
marriage
roll
banks
participants
secret
bath
leads
negative
favorites
theater
springs
perform
healthy
translation
estimates
assets
injury
ministry
drivers
lawyer
figures
married
protected
proposal
sharing
waiting
birthday
fail
banking
officials
toward
won
slightly
assist
conduct
contained
calling
serving
bags
miami
matters
houses
wear
controls
breaking
combined
ultimate
representative
frequency
introduced
minor
finish
residents
noted
displayed
reduced
physics
rare
spent
performed
extreme
samples
bars
reviewed
row
forecast
removed
helps
cycle
amounts
contain
accuracy
rise
sleep
bird
pharmacy
creation
static
scene
hunter
lady
crystal
famous
writer
chairman
violence
fans
speakers
drink
academy
dynamic
eat
permanent
agriculture
cleaning
portfolio
practical
delivered
exclusive
seat
concerns
colour
vendor
originally
philosophy
regulation
officers
reduction
aim
supports
nutrition
recording
regions
junior
meaning
tip
secondary
wonderful
mine
ladies
ticket
announced
guess
agreed
prevention
whom
soccer
math
import
presence
instant
mentioned
automatic
viewing
increasing
majority
connected
dogs
directors
aspects
ahead
moon
participation
scheme
preview
fly
manner
containing
combination
despite
strength
guaranteed
proper
distributed
degrees
fear
seeking
inches
convention
shares
principal
daughter
standing
comfort
colors
ordering
kept
appeal
cruise
bonus
previously
buildings
beat
household
trees
achieve
positions
dress
dealer
sky
nearby
carried
happen
exposure
hide
signature
provision
clothes
caused
luxury
frames
certainly
indeed
newspaper
toy
circuit
layer
printed
slow
removal
easier
liability
nine
adding
mostly
spot
prints
spend
factory
interior
grow
amazing
clock
dot
identity
conversion
feeling
hidden
reasonable
relief
influence
ratio
rain
onto
planet
copies
recipe
permit
seeing
proof
empty
instance
hole
ride
specifically
represent
conservation
pair
ideal
recorded
pieces
finished
parks
dinner
lawyers
stress
cream
runs
trends
discover
patterns
boxes
hills
fourth
advisor
evil
aware
shape
evolution
certificates
objectives
stations
suggested
remains
greatest
firms
concerned
operator
structures
usage
charts
continuing
mixed
peak
competitive
exist
wheel
transit
lights
tracking
angel
bell
keeping
preparation
attempt
receiving
matches
width
noise
engines
forget
array
discussed
accurate
climate
pin
alcohol
instruction
managing
sister
raw
differences
walking
explain
smaller
newest
establish
happened
expressed
extent
sharp
paragraph
kill
mathematics
export
managers
aircraft
conflict
conducted
versions
employer
occur
percentage
knows
describe
concern
backup
requested
citizens
heritage
immediate
holding
trouble
spread
coach
audience
assigned
collections
ages
participate
plug
specialist
cook
affect
experienced
investigation
raised
hat
institution
directed
searching
helping
affected
totally
plate
expenses
indicate
transmission
characteristics
lose
organic
seek
experiences
extremely
contracts
guests
diseases
concerning
equivalent
chemistry
neighborhood
variables
agenda
anyway
continues
tracks
curriculum
logic
template
prince
circle
soil
anywhere
psychology
responses
circumstances
investor
identification
"#;

/// Common English words, one per line, lower case (part 5 of 12 of the
/// dictionary behind the classifier's English-coverage feature).
pub const ENGLISH_WORDS_5: &'static str = r#"leaving
wildlife
elementary
cooking
speaking
fox
unlimited
respond
sizes
plain
exit
entered
arm
keys
launch
wave
checking
acts
guidance
trail
symbol
crafts
highway
observed
setup
fiscal
styles
filled
bond
channels
blues
chocolate
portion
scope
supplier
cotton
controlled
requirement
authorities
biology
dental
killed
border
ancient
debate
representatives
starts
causes
biography
leisure
learned
transactions
explorer
historic
attached
opened
husband
disabled
crazy
upcoming
concert
retirement
scores
financing
efficiency
comedy
adopted
efficient
linear
commitment
carrier
edited
constant
mouth
meter
linked
interviews
concepts
gun
reflect
pure
deliver
wonder
lessons
fruit
begins
qualified
reform
lens
treated
discovery
draw
classified
assume
confidence
alliance
confirm
warm
neither
offline
leaves
engineer
lifestyle
consistent
replace
connections
inventory
checks
reached
becoming
sugar
crew
legs
stick
securities
relation
enabled
slide
volunteer
tested
rear
enhance
exact
bound
processor
node
formal
dimensions
contribute
lock
storm
micro
mile
showed
challenges
editors
brothers
recognition
presents
tank
estimate
encourage
navy
kid
inspection
consumers
cancel
limits
territory
transaction
weapons
paint
delay
pilot
outlet
contributions
continuous
resulting
initiative
novel
execution
disability
increases
winner
episode
examination
dish
plays
bulletin
indicates
modify
adam
truly
painting
committed
extensive
universe
candidate
outstanding
eating
perspective
planned
watching
mirror
tournament
consideration
discounts
sessions
stocks
buyers
journals
chosen
clark
hate
terminal
nights
behalf
liquid
rice
loop
salary
foods
guard
properly
saving
remaining
empire
twenty
newly
raise
prepare
depending
expansion
vary
hundreds
helped
tomorrow
purchased
milk
decide
consent
drama
visiting
performing
keyboard
contest
collected
bands
boot
suitable
absolutely
millions
lunch
push
chamber
findings
muscle
featuring
implement
scheduled
typical
tower
yours
sum
calculator
significantly
chicken
temporary
attend
shower
sending
tonight
dear
sufficient
shell
province
oak
awareness
governor
beer
seemed
contribution
measurement
swimming
formula
catch
doubt
earn
unable
periods
tasks
attacks
resistance
doors
symptoms
biggest
memorial
visitor
twin
forth
insert
gateway
drawing
candidates
ordered
fighting
transition
happens
spy
instrument
split
themes
powers
heaven
bits
twice
classification
focused
physician
bargain
asking
blocks
normally
spiritual
hunting
suit
shift
chip
sit
bodies
cutting
writers
marks
flexible
loved
numerous
relatively
birds
satisfaction
represents
superior
preferred
saved
paying
shots
intellectual
granted
choices
carbon
spending
comfortable
magnetic
interaction
listening
effectively
crisis
outlook
massive
employed
bright
treat
header
poverty
formed
piano
echo
grid
sheets
experimental
revolution
displays
allowing
earnings
mystery
landscape
dependent
mechanical
journey
risks
banner
charter
cooperation
acquisition
ports
implemented
recognized
dreams
teach
occurred
rapid
pull
diversity
reverse
deposit
seminar
investments
wheels
specify
accessible
sensitive
formats
depends
boots
holds
concrete
editing
folder
completion
upload
pulse
technique
contractors
voting
courts
notices
calculate
broadcast
converted
anniversary
improvements
strip
pearl
accident
possibly
typically
representation
regard
pump
exists
arrangements
smooth
conferences
strike
consumption
afternoon
threat
surveys
sitting
putting
consultant
ownership
committees
researchers
trailer
castle
gardens
missed
antique
labels
willing
acting
heads
stored
exam
residence
strange
sustainable
statistical
beds
mention
innovation
parallel
amended
operate
bills
bold
bathroom
stable
definitions
doctors
lesson
cinema
asset
scan
elections
drinking
reaction
blank
enhanced
entitled
severe
generate
newspapers
hospitals
humor
aged
exception
lived
duration
bulk
successfully
fabric
visits
primarily
tight
domains
contrast
recommendation
flying
recruitment
cute
organized
adoption
improving
expensive
meant
capture
pounds
plane
"#;

/// Common English words, one per line, lower case (part 6 of 12 of the
/// dictionary behind the classifier's English-coverage feature).
pub const ENGLISH_WORDS_6: &'static str = r#"explained
seed
desire
expertise
mechanism
camping
welfare
peer
caught
eventually
marked
driven
measured
bottle
agreements
considering
innovative
conclusion
closing
thousand
meat
legend
grace
monster
villa
bone
columns
collaboration
detection
inner
formation
engineers
entity
gate
holder
proposals
settlement
duties
valuable
tone
ethics
forever
dragon
busy
captain
fantastic
imagine
brings
heating
leg
neck
wing
governments
purchasing
stereo
appointed
taste
dealing
commit
tiny
operational
rail
liberal
trips
gap
sides
tube
turns
corresponding
descriptions
belt
jacket
determination
animation
lease
productions
aviation
hobbies
proud
excess
disaster
console
commands
instructor
giant
achieved
injuries
shipped
seats
approaches
alarm
voltage
usual
loading
stamps
appeared
angle
vinyl
highlights
mining
designers
ongoing
worst
imaging
scientists
liberty
era
convert
possibility
analyst
dangerous
garage
exciting
reliability
unfortunately
respectively
volunteers
attachment
derived
pleasure
honor
oriented
eagle
pants
nurse
prayer
appointment
quiet
luck
postage
producer
represented
dial
responsibilities
cheese
comic
carefully
jet
productivity
investors
crown
underground
diagnosis
maker
crack
principle
picks
calculated
applies
appearance
smoke
filters
incorporated
craft
cake
apart
fellow
blind
lounge
mad
algorithm
coins
gross
strongly
cafe
proteins
horror
familiar
capable
involving
pen
investing
admission
shoe
elected
carrying
victory
sand
terrorism
joy
editions
mainly
ethnic
parliament
actor
finds
seal
situations
fifth
allocated
citizen
vertical
corrections
structural
municipal
describes
prize
occurs
absolute
disabilities
consists
anytime
substance
prohibited
addressed
lies
pipe
soldiers
guardian
lecture
simulation
layout
initiatives
concentration
classics
lay
interpretation
horses
dirty
deck
donate
taught
worker
optimization
alive
temple
substances
prove
discovered
wings
breaks
genetic
restrictions
participating
waters
promise
thin
exhibition
prefer
ridge
cabinet
bringing
sick
dose
evaluate
tropical
collect
bet
composition
streets
nationwide
vector
definitely
turning
buffer
purple
existence
commentary
developments
immigration
destinations
mutual
pipeline
necessarily
syntax
attribute
prison
skill
chairs
everyday
apparently
surrounding
mountains
moves
popularity
inquiry
checked
exhibit
throw
trend
visible
cats
desert
oldest
coordinator
obviously
mercury
handbook
navigate
worse
summit
victims
spaces
fundamental
burning
escape
somewhat
receiver
substantial
progressive
boats
glance
championship
impossible
tells
obvious
fiber
depression
graph
covering
platinum
judgment
bedrooms
talks
filing
modeling
passing
awarded
trials
tissue
masters
bonds
explanation
folk
commons
fraud
electricity
permitted
spectrum
arrival
okay
emphasis
aspect
workplace
awesome
confirmed
counts
priced
crash
lift
desired
closer
assumes
heights
shadow
riding
infection
expense
grove
eligibility
venture
clinic
healing
princess
mall
entering
packet
spray
studios
involvement
buttons
placement
observations
funded
winners
extend
roads
subsequent
rolling
fell
motorcycle
yard
disclosure
establishment
memories
arrived
creates
faces
tourist
mayor
murder
adequate
senator
yield
presentations
grades
pour
digest
lodging
dust
hence
entirely
replaced
radar
rescue
losses
combat
reducing
stopped
occupation
lakes
donations
associations
closely
radiation
diary
seriously
kings
shooting
adds
ear
flags
launched
elsewhere
pollution
conservative
shock
effectiveness
walls
abroad
tie
ward
drawn
visited
roof
walker
demonstrate
atmosphere
suggests
kiss
beast
operated
experiment
targets
overseas
purchases
counsel
federation
pizza
invited
yards
assignment
chemicals
farmers
queries
rush
absence
nearest
cluster
vendors
whereas
serves
woods
surprise
lamp
partial
everybody
couples
ranking
jokes
acceptable
satisfied
glad
wins
measurements
verify
globe
trusted
copper
rack
medication
warehouse
receipt
supposed
ordinary
nobody
ghost
violation
configure
stability
applying
boss
pride
institutional
expectations
"#;

/// Common English words, one per line, lower case (part 7 of 12 of the
/// dictionary behind the classifier's English-coverage feature).
pub const ENGLISH_WORDS_7: &'static str = r#"independence
knowing
reporter
champion
cloudy
personally
plenty
solo
sentence
throat
ignore
uniform
excellence
wealth
tall
somewhere
vacuum
dancing
attributes
recognize
brass
writes
plaza
outcomes
survival
quest
publish
screening
trans
whenever
lifetime
pioneer
forgotten
plates
acres
venue
athletic
thermal
essays
behaviour
vital
telling
fairly
coastal
charity
intelligent
wake
stupid
harbor
traveler
segment
realize
regardless
enemy
puzzle
rising
wells
opens
insight
restricted
secrets
lucky
latter
merchants
thick
repeat
syndrome
attendance
penalty
drum
glasses
enables
builder
chips
flood
ease
arguments
arena
adventures
pupils
announcement
outcome
appreciate
expanded
casual
grown
lovely
extras
centres
clause
smile
lands
troops
indoor
armed
broker
regularly
believed
pine
cooling
tend
trucks
mechanisms
divorce
partly
tradition
candy
pills
tiger
folks
sensor
exposed
hunt
angels
deputy
indicators
sealed
emissions
physicians
loaded
complaint
scenes
experiments
balls
boost
scholarship
governance
mill
founded
supplements
chronic
icons
moral
catering
finger
keeps
pound
locate
trained
burn
implementing
roses
ourselves
bread
wooden
motors
tough
incident
dynamics
lie
conversation
decrease
chest
pension
revenues
emerging
worship
capability
herself
producing
churches
precision
damages
reserves
contributed
solve
shorts
reproduction
minority
diverse
ingredients
sole
franchise
recorder
complaints
facing
promotions
tones
passion
maintaining
sight
laid
clay
defence
patches
weak
refund
towns
environments
divided
reception
wise
emails
odds
correctly
insider
seminars
consequences
makers
hearts
geography
appearing
integrity
worry
discrimination
legacy
pleased
danger
vitamin
widely
processed
phrase
genuine
raising
implications
functionality
paradise
hybrid
reads
roles
intermediate
emotional
sons
leaf
pad
glory
platforms
bigger
billing
versus
combine
overnight
geographic
exceed
rod
fault
preliminary
districts
introduce
silk
promotional
babies
compiled
romantic
revealed
specialists
generator
examine
suspension
compaq
sad
correction
wolf
slowly
authentication
communicate
supplement
portions
infant
promoting
sectors
fluid
grounds
fits
kick
regards
meal
hurt
machinery
bandwidth
unlike
equation
baskets
probability
pot
dimension
proven
schedules
admissions
studied
involves
quarterly
profits
devil
grass
comply
illustrated
cherry
continental
alternate
achievement
limitations
cuts
funeral
enjoyed
automated
chapters
passenger
convenient
noticed
socket
silent
literary
egg
signals
caps
orientation
theft
childhood
swing
symbols
humans
analog
facial
choosing
talent
dated
flexibility
wisdom
shoot
boundary
mint
offset
elite
spin
holders
believes
poems
deadline
jurisdiction
robot
displaying
witness
equipped
stages
encouraged
winds
powder
acquired
assess
wash
stones
entrance
roots
declaration
losing
attempts
noble
automation
impacts
gospel
advantages
shore
loves
induced
knight
preparing
loose
aims
recipient
linking
extensions
appeals
earned
illness
athletics
alternatives
pending
determining
personalized
conditioning
teenage
soap
triple
unusual
answered
partnerships
destruction
increasingly
migration
disorder
routine
basically
rocks
conventional
applicants
wearing
axis
sought
genes
mounted
habitat
median
guns
scanner
herein
occupational
animated
judicial
adjustment
hero
integer
treatments
bachelor
attitude
engaged
falling
basics
carpet
lenses
binary
genetics
attended
difficulty
collective
coalition
dropped
enrollment
pace
besides
wage
producers
collector
arc
hosts
interfaces
moments
atlas
strings
dawn
representing
observation
feels
torture
deleted
coat
container
defendant
warner
confirmation
embedded
supervisor
wizard
actors
liver
liable
brochure
petition
recall
antenna
picked
assumed
departure
belief
killing
shoulder
decor
lookup
texts
brokers
diameter
doll
seasons
interactions
refine
bidder
singer
literacy
fails
aging
intervention
fed
attraction
diving
invite
modification
suppose
customized
involve
moderate
terror
younger
thirty
mice
opposite
understood
"#;

/// Common English words, one per line, lower case (part 8 of 12 of the
/// dictionary behind the classifier's English-coverage feature).
pub const ENGLISH_WORDS_8: &'static str = r#"rapidly
ban
intro
assurance
clerk
happening
vast
mills
outline
amendments
receives
metropolitan
compilation
verification
fonts
odd
wrap
refers
mood
favor
veterans
quiz
attractive
occasion
recordings
victim
demands
sleeping
careful
beam
gardening
obligations
arrive
orchestra
sunset
tracked
moreover
minimal
lottery
tops
framed
aside
licence
adjustable
allocation
essay
discipline
demonstrated
dialogue
identifying
camps
declared
dispatched
handheld
trace
disposal
shut
packs
installing
switches
voluntary
consult
greatly
mask
cycling
midnight
commonly
photographer
inform
coal
cry
messaging
quantum
intent
zoo
largely
pleasant
announce
constructed
additions
requiring
spoke
arrow
engagement
sampling
rough
weird
lion
inspired
holes
weddings
blade
suddenly
oxygen
cookie
meals
canyon
meters
merely
calendars
arrangement
conclusions
passes
pointer
compatibility
stretch
furthermore
permits
cooperative
sleeve
cleaner
beef
feeding
stroke
township
rankings
measuring
hats
crowd
transfers
surf
transformation
remained
attachments
entities
customs
administrators
personality
rainbow
hook
decline
gloves
cord
skiing
cloud
facilitate
subscriber
valve
explains
proceed
feelings
knife
priorities
shelf
bookstore
timing
liked
parenting
adopt
denied
incredible
donation
outer
crop
deaths
rivers
pharmaceutical
tales
workforce
nodes
thumbs
seeds
cited
targeted
organizational
realized
twelve
founder
decade
dispute
tired
adverse
everywhere
excerpt
steam
discharge
drinks
ace
voices
acute
climbing
stood
sing
tons
perfume
honest
hazardous
restore
stack
methodology
somebody
reputation
resistant
recycling
hang
curve
creator
amber
qualifications
museums
coding
tracker
variation
passage
transferred
trunk
hiking
headset
photograph
waves
camel
distributor
lamps
underlying
hood
wrestling
suicide
archived
gathering
projection
juice
chase
mathematical
logical
sauce
fame
extract
specialized
diagnostic
payable
corporations
courtesy
criticism
automobile
confidential
statutory
accommodations
judges
retired
remarks
detected
decades
paintings
walked
arising
bracelet
eggs
juvenile
injection
populations
protective
afraid
acoustic
railway
cassette
initially
indicator
pointed
causing
mistake
locked
eliminate
fusion
mineral
steering
beads
fortune
preference
canvas
threshold
parish
claimed
screens
cemetery
planner
flows
stadium
exploration
fewer
sequences
coupon
nurses
stem
proxy
astronomy
contests
translate
announces
costume
tagged
voted
killer
bikes
gates
adjusted
tune
bishop
pulled
corn
shaped
compression
seasonal
establishing
farmer
counters
puts
constitutional
grew
perfectly
tin
slave
instantly
cultures
coaching
examined
encoding
litigation
submissions
heroes
painted
broadcasting
horizontal
artwork
cosmetic
resulted
portrait
ethical
carriers
mobility
floral
builders
ties
struggle
schemes
suffering
neutral
fisher
rat
prospective
bedding
ultimately
joining
heading
equally
artificial
bearing
spectacular
coordination
connector
combo
seniors
worlds
guilty
affiliated
activation
naturally
haven
tablet
jury
tail
subscribers
charm
lawn
violent
underwear
basin
soup
potentially
ranch
constraints
crossing
inclusive
dimensional
cottage
considerable
crimes
resolved
byte
toner
nose
branches
anymore
holdings
alien
locator
selecting
processors
broke
difficulties
complexity
constantly
browsing
resolve
presidential
documentary
territories
thesis
discs
rocky
bargains
frequent
trim
ceiling
pixels
ensuring
legislature
hospitality
procurement
diamonds
fleet
bunch
totals
singing
theoretical
afford
exercises
starring
referral
surveillance
optimal
quit
distinct
protocols
lung
highlight
substitute
inclusion
hopefully
brilliant
cents
spoken
evaluated
stayed
civic
assignments
manuals
sees
termination
watched
saver
thereof
grill
households
redeem
grain
authentic
regime
wishes
architectural
depend
differ
movements
ranging
repairs
breath
amenities
candle
hanging
colored
authorization
tale
verified
formerly
projector
situated
comparative
seeks
herbal
loving
strictly
routing
psychological
surprised
retailer
"#;

/// Common English words, one per line, lower case (part 9 of 12 of the
/// dictionary behind the classifier's English-coverage feature).
pub const ENGLISH_WORDS_9: &'static str = r#"vitamins
elegant
gains
renewal
genealogy
opposed
deemed
scoring
expenditure
sisters
critics
connectivity
spots
algorithms
margin
coin
solely
fake
salon
collaborative
excluding
headed
voters
cure
commander
arch
thinks
suggestion
soldier
aimed
bomb
harm
interval
mirrors
spotlight
tricks
reset
brush
investigate
panels
repeated
assault
connecting
spare
logistics
deer
tongue
bowling
monkey
proportion
filename
skirt
invest
honey
analyses
drawings
significance
scenario
lovers
atomic
symposium
gauge
essentials
junction
protecting
faced
mat
solving
transmitted
weekends
produces
oven
intensive
chains
sixth
engage
noon
switching
quoted
adapters
correspondence
farms
imports
supervision
cheat
bronze
expenditures
separation
testimony
suspect
celebrities
macro
sender
mandatory
boundaries
crucial
gym
celebration
adjacent
filtering
tuition
spouse
exotic
viewer
threats
puzzles
reaching
damaged
laugh
surgical
destroy
citation
pitch
premises
proved
offensive
imperial
dozen
deployment
teeth
cloth
studying
colleagues
stamp
salmon
separated
cargo
directive
mate
starter
upgrades
likes
butter
pepper
weapon
luggage
burden
chef
tapes
zones
races
stylish
slim
maple
grocery
offshore
governing
retailers
depot
comp
pie
blend
occasionally
attending
emission
finest
realty
bow
recruiting
apparent
instructional
autumn
traveling
probe
permissions
toilet
ranked
jackets
routes
packed
excited
outreach
mounting
recover
tied
balanced
prescribed
timely
talked
delayed
reproduced
explicit
calculation
consolidated
exclude
occasions
equations
oils
exceptional
anxiety
whilst
spatial
respondents
unto
ceramic
prompt
precious
minds
annually
considerations
scanners
pays
fingers
sunny
delivers
necklace
musicians
composite
unavailable
cedar
arranged
theaters
advocacy
fold
essentially
designing
threaded
qualify
hopes
assessments
diagram
burns
pumps
footwear
peoples
attach
licenses
removing
advised
spider
ranges
pairs
sensitivity
trails
preservation
isolated
interim
assisted
divine
streaming
approve
chose
compound
intensity
technological
abortion
dialog
venues
blast
wellness
calcium
antivirus
addressing
pole
discounted
shield
harvest
membrane
previews
constitute
locally
concluded
pickup
desperate
mothers
demonstration
governmental
manufactured
candles
graduation
bend
sailing
variations
sacred
addiction
refused
brake
exterior
greeting
ecology
glen
delays
synthesis
undefined
unemployment
scored
enhancement
clone
velocity
relay
composed
tears
performances
baseline
angry
societies
silicon
identical
petroleum
compete
lover
belong
lips
retention
exchanges
pond
rolls
soundtrack
wondering
daddy
ferry
rabbit
profession
seating
dam
separately
physiology
collecting
exports
tire
participant
scholarships
recreational
loads
friendship
passport
motel
unions
treasury
warrant
frozen
occupied
royalty
scales
rally
observer
sunshine
strain
drag
ceremony
somehow
arrested
expanding
provincial
investigations
ripe
rely
medications
gained
dying
laundry
stuck
placing
stops
homework
adjust
assessed
advertiser
enabling
encryption
filling
downloadable
sophisticated
imposed
silence
possession
laboratories
treaty
vocal
trainer
organ
stronger
volumes
advances
vegetables
lemon
toxic
darkness
nuts
nail
implied
span
respondent
packing
statute
rejected
satisfy
destroyed
shelter
chapel
manufacture
layers
guided
vulnerability
accountability
celebrate
accredited
appliance
compressed
mixture
bench
tub
rider
scheduling
radius
perspectives
mortality
logging
therapeutic
pads
impressive
sheep
accordingly
architect
railroad
lectures
challenging
wines
nursery
harder
cups
ash
microwave
cheapest
accidents
relocation
contributors
salad
tender
violations
foam
temperatures
paste
clouds
competitions
discretion
preserve
poem
unsigned
staying
cosmetics
theories
repository
praise
veteran
streams
landing
signing
executed
negotiations
realistic
showcase
integral
asks
relax
generating
congressional
synopsis
hardly
prairie
reunion
composer
bean
sword
absent
photographic
sells
hoping
accessed
spirits
modifications
coral
pixel
float
bias
"#;

/// Common English words, one per line, lower case (part 10 of 12 of the
/// dictionary behind the classifier's English-coverage feature).
pub const ENGLISH_WORDS_10: &'static str = r#"imported
paths
bubble
acquire
contrary
millennium
tribune
vessel
acids
focusing
viruses
cheaper
admitted
dairy
admit
fancy
equality
achieving
tap
stickers
fisheries
exceptions
reactions
leasing
beliefs
companion
squad
analyze
scroll
relate
divisions
swim
wages
additionally
suffer
forests
fellowship
invalid
concerts
martial
males
retain
execute
tunnel
genres
patents
copyrights
chaos
wheat
chronicles
obtaining
beaver
updating
distribute
readings
decorative
confused
compiler
eagles
bases
accused
bee
campaigns
unity
loud
conjunction
bride
rats
defines
airports
instances
indigenous
begun
packets
anchor
socks
validation
parade
corruption
trigger
incentives
cholesterol
gathered
notified
differential
beaches
folders
dramatic
surfaces
terrible
routers
pendant
dresses
scientist
hiring
clocks
arthritis
females
nevertheless
reflects
taxation
fever
cuisine
surely
practitioners
transcript
theorem
inflation
pray
compounds
drums
contracting
structured
reasonably
bare
hung
cattle
radical
graduates
rover
recommends
controlling
treasure
reload
distributors
flame
tanks
assuming
monetary
elderly
pit
mono
particles
floating
extraordinary
tile
indicating
spell
hottest
coordinate
exclusively
alleged
limitation
compile
struck
illustration
warnings
construct
inquiries
bridal
annex
inspiration
tribal
curious
affecting
freight
rebate
eclipse
downloading
shuttle
aggregate
stunning
cycles
affects
forecasts
detect
actively
knee
prep
complicated
fastest
butler
injured
decorating
payroll
cookbook
expressions
courier
uploaded
hints
collapse
connectors
unlikely
conflicts
beverage
tribute
wired
immune
travelers
forestry
barriers
rarely
infected
offerings
genesis
barrier
argue
incorrect
trains
metals
bicycle
furnishings
letting
arise
thereby
particle
perception
minerals
advise
humidity
bottles
boxing
renaissance
pathology
ordinance
photographers
infections
chess
operates
configured
survive
festivals
menus
possibilities
duck
reveal
canal
amino
contributing
herbs
clinics
analytical
missions
lying
costumes
strict
dive
circulation
drill
offense
protest
assumption
hobby
tries
invention
nickname
technician
inline
executives
enquiries
washing
staffing
cognitive
exploring
trick
enquiry
closure
raid
timber
volt
intense
playlist
registrar
showers
supporters
ruling
steady
dirt
statutes
withdrawal
drops
predicted
wider
cancellation
enrolled
sensors
screw
ministers
publicly
hourly
blame
veterinary
reseller
handed
suffered
intake
informal
relevance
incentive
butterfly
mechanics
heavily
fifty
headers
mistakes
numerical
uncle
defining
counting
reflection
sink
accompanied
assure
invitation
devoted
sodium
spirituality
hormone
meanwhile
proprietary
brick
grip
naval
medieval
porcelain
bridges
captured
watt
decent
casting
translated
shortly
warrior
diploma
cabin
innocent
scanning
consensus
copying
delivering
cordless
horn
fired
journalism
trivia
perth
frog
grammar
intention
disagree
tires
logs
undertaken
hazard
retro
statewide
semiconductor
episodes
boolean
circular
anger
mainland
illustrations
suits
chances
interact
snap
happiness
substantially
bizarre
olympics
fruits
identifier
ribbon
calculations
conducting
startup
kissing
handy
swap
exempt
crops
reduces
accomplished
calculators
geometry
impression
correlation
gorgeous
capitol
dishes
nervous
refuse
extends
fragrance
replica
plumbing
tribe
neighbors
trades
superb
buzz
transparent
trinity
handled
legends
boom
calm
champions
floors
selections
projectors
inappropriate
exhaust
comparing
speaks
vocational
copied
farming
pharmacies
fork
troy
roller
introducing
batch
organize
appreciated
alter
edges
mixing
handles
skilled
fitted
harmony
distinguished
asthma
projected
assumptions
shareholders
twins
developmental
regulated
triangle
amend
anticipated
oriental
reward
completing
hydrogen
sprint
comparable
advocate
confusion
tray
inputs
warranties
genome
documented
medal
paperbacks
coaches
vessels
harbour
walks
keyboards
sage
knives
vulnerable
arrange
artistic
bat
honors
booth
indie
reflected
unified
bones
breed
detector
ignored
polar
fallen
"#;

/// Common English words, one per line, lower case (part 11 of 12 of the
/// dictionary behind the classifier's English-coverage feature).
pub const ENGLISH_WORDS_11: &'static str = r#"precise
respiratory
notifications
mainstream
invoice
evaluating
lip
subcommittee
gather
maternity
backed
colonial
forming
embassy
cave
journalists
slight
proceeds
indirect
amongst
wool
foundations
arrest
volleyball
horizon
deeply
toolbox
marina
liabilities
prizes
browsers
decreased
patio
tolerance
surfing
creativity
describing
optics
pursue
lightning
overcome
eyed
quotations
grab
inspector
attract
beans
bookmarks
disable
snake
succeed
lending
reminder
searched
behavioral
riverside
bathrooms
plains
insights
abilities
initiated
karaoke
trap
lonely
fool
nonprofit
suspended
hereby
observe
containers
attitudes
berry
collar
simultaneously
racial
integrate
sociology
exhibitions
confident
retrieved
exhibits
officially
consortium
dies
terrace
bacteria
replied
seafood
novels
recipients
ought
delicious
traditions
safely
finite
kidney
periodically
fixes
sends
durable
allied
throws
moisture
roster
referring
transform
timer
tablets
tuning
gotten
educators
futures
vegetable
verse
highs
humanities
independently
wanting
custody
scratch
launches
alignment
competitors
rocket
bullet
towers
racks
lace
nasty
visibility
latitude
consciousness
tumor
ugly
deposits
encounter
trustees
watts
reprints
resolutions
accessing
forty
tubes
attempted
priest
analysts
queue
trance
locale
bundle
hammer
invasion
witnesses
runner
rows
administered
notion
skins
mailed
spelling
arctic
exams
rewards
beneath
strengthen
defend
infrared
seventh
gods
belly
aggressive
advertisements
quarters
stolen
disturbed
determines
sculpture
ears
motivation
lenders
pharmacology
fitting
fixtures
mere
agrees
passengers
quantities
consistently
surplus
elder
sonic
cheers
dig
taxi
punishment
appreciation
subsequently
zoning
gravity
providence
thumb
restriction
incorporate
backgrounds
treasurer
guitars
essence
flooring
lightweight
mighty
athletes
humanity
transcription
complications
scholars
remembered
galaxy
snapshot
caring
worn
synthetic
segments
testament
dominant
twist
specifics
stomach
partially
buried
minimize
ranks
wilderness
debut
generations
tournaments
deny
anatomy
sponsorship
headphones
fraction
trio
proceeding
cube
defects
uncertainty
breakdown
marker
reconstruction
subsidiary
strengths
clarity
rugs
encouraging
furnished
settled
folding
terrorists
airfare
comparisons
beneficial
distributions
vaccine
fate
promised
penny
robust
bookings
threatened
discusses
jungle
responded
rim
abstracts
ivory
alpine
prediction
pharmaceuticals
fabulous
remix
alias
thesaurus
individually
battlefield
literally
newer
ecological
spice
oval
implies
cooler
appraisal
consisting
maritime
periodic
submitting
overhead
prospect
shipment
breeding
citations
geographical
donor
tension
trash
shapes
tier
manor
envelope
homeland
championships
excluded
breeds
rapids
disco
finishing
emotions
incoming
prospects
cleaners
eternal
cite
aboriginal
remarkable
rotation
preventing
productive
boulevard
pig
metric
compliant
minus
penalties
imagination
refurbished
varied
grande
closest
activated
actress
mess
conferencing
assign
politicians
accommodate
tigers
aurora
slides
premiere
lender
villages
shade
chorus
rhythm
digit
argued
dietary
symphony
sudden
accepting
precipitation
lions
pools
lyric
isolation
speeds
sustained
matched
approximate
rope
rational
programmer
fighters
chambers
dump
greetings
inherited
warming
incomplete
vocals
chronicle
fountain
grave
legitimate
biographies
burner
investigator
plaintiff
gentle
prisoners
deeper
hose
nightlife
footage
worthy
reveals
architects
saints
entrepreneur
carries
freelance
duo
excessive
helena
saves
regarded
valuation
unexpected
cigarette
fog
characteristic
lobby
consequently
headline
treating
punch
appointments
cowboy
narrative
enormous
karma
consist
queens
academics
pubs
quantitative
lucas
subdivision
tribes
defeat
clicks
distinction
hazards
insured
livestock
exemption
tenant
sustainability
cabinets
tattoo
shake
algebra
shadows
holly
formatting
silly
nutritional
mercy
freely
sunrise
wrapping
mild
fur
weblogs
timeline
belongs
readily
affiliation
fence
infinite
ensures
relatives
clan
"#;

/// Common English words, one per line, lower case (part 12 of 12 of the
/// dictionary behind the classifier's English-coverage feature).
pub const ENGLISH_WORDS_12: &'static str = r#"legally
shame
satisfactory
revolutionary
bracelets
sync
civilian
telephony
mesa
fatal
remedy
realtors
breathing
briefly
thickness
adjustments
graphical
genius
discussing
aerospace
fighter
meaningful
flesh
retreat
adapted
barely
wherever
estates
rug
democrat
borough
maintains
failing
shortcuts
lamb
jumps
lazy
brown
"#;

} // verus!
